use crate::error::{fail, failure, outcome_of, Outcome, ParseError, Rule};
use crate::number::{
    exponent_text, format_decimal, format_number, fraction_text, sign_text, Decimal, Exponent, Number, SpecDecimal,
    SpecExponent, SpecNumber,
};
use crate::text::{chars_of, string_of};
use super::metric_name::{in_class, lemma_run_end, run_end, run_end_at, Class};
use super::{outcome_with_rest, rest_is_suffix, with_rest};
use vstd::prelude::*;

verus! {

/// An optional `-` or `+` at `i`: whether it is `-`, and the position after it.
pub open spec fn sign_at(s: Seq<char>, i: int) -> (bool, int) {
    if 0 <= i < s.len() && s[i] == '-' {
        (true, i + 1)
    } else if 0 <= i < s.len() && s[i] == '+' {
        (false, i + 1)
    } else {
        (false, i)
    }
}

/// `c` is the lower-case ASCII letter `l`, in either case.
pub open spec fn same_letter(c: char, l: char) -> bool {
    c == l || ('A' <= c && c <= 'Z' && (c as u32) + 32 == (l as u32))
}

/// The lower-case word `lit` stands at `i`, in any mix of cases.
pub open spec fn has_at_no_case(s: Seq<char>, i: int, lit: Seq<char>) -> bool {
    &&& 0 <= i
    &&& i + lit.len() <= s.len()
    &&& forall|k: int| 0 <= k < lit.len() ==> same_letter(#[trigger] s[i + k], lit[k])
}

/// The exponent of a real number at `e`: `e` or `E`, an optional sign and
/// at least one digit; where there is none, the literal ends at `e`.
pub open spec fn spec_exponent(s: Seq<char>, e: int) -> (Option<SpecExponent>, int) {
    if 0 <= e < s.len() && (s[e] == 'e' || s[e] == 'E') {
        let (negative, p) = sign_at(s, e + 1);
        let q = run_end(s, p, Class::Digit);
        if q > p {
            (Some(SpecExponent { negative, digits: s.subrange(p, q) }), q)
        } else {
            (None, e)
        }
    } else {
        (None, e)
    }
}

/// A real number: an optional sign, digits before and/or after a point (at
/// least one digit in all), and an optional exponent.
pub open spec fn spec_real(s: Seq<char>, i: int) -> Option<(SpecDecimal, int)> {
    let (negative, a) = sign_at(s, i);
    let b = run_end(s, a, Class::Digit);
    let point = 0 <= b < s.len() && s[b] == '.';
    let c = if point {
        run_end(s, b + 1, Class::Digit)
    } else {
        b
    };
    if b > a || (point && c > b + 1) {
        let fraction = if point {
            Some(s.subrange(b + 1, c))
        } else {
            None
        };
        let (exponent, end) = spec_exponent(s, c);
        Some((SpecDecimal { negative, integer: s.subrange(a, b), fraction, exponent }, end))
    } else {
        None
    }
}

/// An optional sign followed by `infinity` or `inf`, in any case.
pub open spec fn spec_infinity(s: Seq<char>, i: int) -> Option<(bool, int)> {
    let (negative, a) = sign_at(s, i);
    if has_at_no_case(s, a, seq!['i', 'n', 'f', 'i', 'n', 'i', 't', 'y']) {
        Some((negative, a + 8))
    } else if has_at_no_case(s, a, seq!['i', 'n', 'f']) {
        Some((negative, a + 3))
    } else {
        None
    }
}

/// `nan`, in any case.
pub open spec fn spec_nan(s: Seq<char>, i: int) -> Option<int> {
    if has_at_no_case(s, i, seq!['n', 'a', 'n']) {
        Some(i + 3)
    } else {
        None
    }
}

/// A number: a real number, else a signed infinity, else not-a-number.
pub open spec fn spec_number(s: Seq<char>, i: int) -> Outcome<SpecNumber> {
    match spec_real(s, i) {
        Some((d, j)) => Ok((SpecNumber::Real(d), j)),
        None => match spec_infinity(s, i) {
            Some((negative, j)) => Ok((SpecNumber::Infinity { negative }, j)),
            None => match spec_nan(s, i) {
                Some(j) => Ok((SpecNumber::NaN, j)),
                None => failure(Rule::Number, i, false),
            },
        },
    }
}

pub proof fn lemma_number_end(s: Seq<char>, i: int)
    requires
        0 <= i <= s.len(),
    ensures
        spec_number(s, i) matches Ok((_, j)) ==> i < j <= s.len(),
{
    let (negative, a) = sign_at(s, i);
    lemma_run_end(s, a, Class::Digit);
    let b = run_end(s, a, Class::Digit);
    if 0 <= b < s.len() && s[b] == '.' {
        lemma_run_end(s, b + 1, Class::Digit);
    }
    let point = 0 <= b < s.len() && s[b] == '.';
    let c = if point {
        run_end(s, b + 1, Class::Digit)
    } else {
        b
    };
    if 0 <= c < s.len() && (s[c] == 'e' || s[c] == 'E') {
        let (en, p) = sign_at(s, c + 1);
        lemma_run_end(s, p, Class::Digit);
    }
}

fn sign_at_exec(s: &Vec<char>, i: usize) -> (r: (bool, usize))
    requires
        i <= s@.len(),
    ensures
        (r.0, r.1 as int) == sign_at(s@, i as int),
        i <= r.1 <= s@.len(),
{
    if i < s.len() && s[i] == '-' {
        (true, i + 1)
    } else if i < s.len() && s[i] == '+' {
        (false, i + 1)
    } else {
        (false, i)
    }
}

fn tag_no_case_at(s: &Vec<char>, i: usize, lit: &[char]) -> (r: bool)
    requires
        i <= s@.len(),
    ensures
        r == has_at_no_case(s@, i as int, lit@),
        r ==> i + lit.len() <= s.len(),
{
    if lit.len() > s.len() - i {
        return false;
    }
    let mut k: usize = 0;
    while k < lit.len()
        invariant
            i + lit.len() <= s.len(),
            k <= lit@.len(),
            forall|m: int| 0 <= m < k ==> same_letter(#[trigger] s@[i + m], lit@[m]),
        decreases lit@.len() - k,
    {
        let c = s[i + k];
        let l = lit[k];
        if !(c == l || ('A' <= c && c <= 'Z' && (c as u32) + 32 == (l as u32))) {
            assert(!same_letter(s@[i + k as int], lit@[k as int]));
            return false;
        }
        k = k + 1;
    }
    true
}

fn exponent_at(s: &Vec<char>, e: usize) -> (r: (Option<Exponent>, usize))
    requires
        e <= s@.len(),
    ensures
        (match r.0 {
            Some(x) => Some(SpecExponent { negative: x.negative, digits: x.digits@ }),
            None => None,
        }, r.1 as int) == spec_exponent(s@, e as int),
        e <= r.1 <= s@.len(),
{
    if e < s.len() && (s[e] == 'e' || s[e] == 'E') {
        let (negative, p) = sign_at_exec(s, e + 1);
        let q = run_end_at(s, p, Class::Digit);
        if q > p {
            (Some(Exponent { negative, digits: string_of(s, p, q) }), q)
        } else {
            (None, e)
        }
    } else {
        (None, e)
    }
}

fn real_at(s: &Vec<char>, i: usize) -> (r: Option<(Decimal, usize)>)
    requires
        i <= s@.len(),
    ensures
        match r {
            Some((d, j)) => spec_real(s@, i as int) == Some((d@, j as int)) && j <= s@.len(),
            None => spec_real(s@, i as int) is None,
        },
{
    let (negative, a) = sign_at_exec(s, i);
    let b = run_end_at(s, a, Class::Digit);
    let point = b < s.len() && s[b] == '.';
    let c = if point {
        run_end_at(s, b + 1, Class::Digit)
    } else {
        b
    };
    if b > a || (point && c > b + 1) {
        let fraction = if point {
            Some(string_of(s, b + 1, c))
        } else {
            None
        };
        let (exponent, end) = exponent_at(s, c);
        let d = Decimal { negative, integer: string_of(s, a, b), fraction, exponent };
        Some((d, end))
    } else {
        None
    }
}

pub fn number_at(s: &Vec<char>, i: usize) -> (r: Result<(Number, usize), ParseError>)
    requires
        i <= s@.len(),
    ensures
        outcome_of(r) == spec_number(s@, i as int),
        r matches Ok((_, j)) ==> j <= s@.len(),
{
    if let Some((d, j)) = real_at(s, i) {
        return Ok((Number::Real(d), j));
    }
    let (negative, a) = sign_at_exec(s, i);
    let infinity = ['i', 'n', 'f', 'i', 'n', 'i', 't', 'y'];
    let inf = ['i', 'n', 'f'];
    let nan = ['n', 'a', 'n'];
    assert(infinity@ == seq!['i', 'n', 'f', 'i', 'n', 'i', 't', 'y']);
    assert(inf@ == seq!['i', 'n', 'f']);
    assert(nan@ == seq!['n', 'a', 'n']);
    if tag_no_case_at(s, a, infinity.as_slice()) {
        return Ok((Number::Infinity { negative }, a + 8));
    }
    if tag_no_case_at(s, a, inf.as_slice()) {
        return Ok((Number::Infinity { negative }, a + 3));
    }
    if tag_no_case_at(s, i, nan.as_slice()) {
        return Ok((Number::NaN, i + 3));
    }
    Err(fail(Rule::Number, i, false))
}

/// Parse a number
pub fn number(input: &str) -> (r: Result<(&str, Number), ParseError>)
    ensures
        outcome_with_rest(input@, r) == spec_number(input@, 0),
        rest_is_suffix(input@, r),
{
    let s = chars_of(input);
    let r = number_at(&s, 0);
    with_rest(input, r)
}


pub open spec fn all_digits(t: Seq<char>) -> bool {
    forall|k: int| 0 <= k < t.len() ==> in_class(#[trigger] t[k], Class::Digit)
}

/// A decimal that the grammar can read back: digits in each part, at least
/// one digit before or after the point, and at least one in the exponent.
pub open spec fn wf_decimal(d: SpecDecimal) -> bool {
    &&& all_digits(d.integer)
    &&& d.fraction matches Some(f) ==> all_digits(f)
    &&& d.exponent matches Some(e) ==> all_digits(e.digits) && e.digits.len() > 0
    &&& d.integer.len() > 0 || (d.fraction matches Some(f) && f.len() > 0)
}

proof fn lemma_run_end_exact(s: Seq<char>, i: int, j: int, class: Class)
    requires
        0 <= i <= j <= s.len(),
        forall|k: int| i <= k < j ==> in_class(#[trigger] s[k], class),
        j == s.len() || !in_class(s[j], class),
    ensures
        run_end(s, i, class) == j,
    decreases j - i,
{
    if i < j {
        lemma_run_end_exact(s, i + 1, j, class);
    }
}

proof fn lemma_real_wf(s: Seq<char>, i: int)
    requires
        0 <= i <= s.len(),
    ensures
        spec_real(s, i) matches Some((d, _)) ==> wf_decimal(d),
{
    let (negative, a) = sign_at(s, i);
    lemma_run_end(s, a, Class::Digit);
    let b = run_end(s, a, Class::Digit);
    if 0 <= b < s.len() && s[b] == '.' {
        lemma_run_end(s, b + 1, Class::Digit);
    }
    let point = 0 <= b < s.len() && s[b] == '.';
    let c = if point {
        run_end(s, b + 1, Class::Digit)
    } else {
        b
    };
    if 0 <= c < s.len() && (s[c] == 'e' || s[c] == 'E') {
        let (en, p) = sign_at(s, c + 1);
        lemma_run_end(s, p, Class::Digit);
    }
}

/// A run of digits that `part` puts at `from` in `t`, followed by a non-digit
/// or by the end of `t`.
proof fn lemma_digit_part(t: Seq<char>, from: int, part: Seq<char>)
    requires
        0 <= from,
        from + part.len() <= t.len(),
        t.subrange(from, from + part.len()) == part,
        all_digits(part),
        from + part.len() == t.len() || !in_class(t[from + part.len()], Class::Digit),
    ensures
        run_end(t, from, Class::Digit) == from + part.len(),
{
    assert forall|k: int| from <= k < from + part.len() implies in_class(
        #[trigger] t[k],
        Class::Digit,
    ) by {
        assert(t[k] == t.subrange(from, from + part.len())[k - from]);
    }
    lemma_run_end_exact(t, from, from + part.len(), Class::Digit);
}

/// The exponent part `ep` of a written decimal, read back from `c` on.
proof fn lemma_exponent_round_trip(t: Seq<char>, c: int, e: Option<SpecExponent>)
    requires
        0 <= c <= t.len(),
        t.subrange(c, t.len() as int) == exponent_text(e),
        e matches Some(x) ==> all_digits(x.digits) && x.digits.len() > 0,
    ensures
        spec_exponent(t, c) == (e, t.len() as int),
{
    let ep = t.subrange(c, t.len() as int);
    assert(ep.len() == t.len() - c);
    if let Some(x) = e {
        assert(ep =~= seq!['e'] + (sign_text(x.negative) + x.digits));
        assert(ep.len() >= 2);
        assert(t[c] == ep[0]);
        let p = c + 1 + sign_text(x.negative).len();
        if x.negative {
            assert(t[c + 1] == ep[1]);
        } else {
            assert(t[c + 1] == ep[1]);
            assert(ep[1] == x.digits[0]);
        }
        assert(sign_at(t, c + 1) == (x.negative, p));
        assert(ep.subrange(p - c, ep.len() as int) =~= x.digits);
        assert(t.subrange(p, t.len() as int) =~= ep.subrange(p - c, ep.len() as int));
        lemma_digit_part(t, p, x.digits);
    }
}

/// The text of a decimal, cut at the ends of its sign, integer digits and
/// fraction.
proof fn lemma_format_parts(d: SpecDecimal)
    ensures
        ({
            let t = format_decimal(d);
            let a = sign_text(d.negative).len() as int;
            let b = a + d.integer.len();
            let c = b + fraction_text(d.fraction).len();
            &&& t.len() == c + exponent_text(d.exponent).len()
            &&& t.subrange(0, a) == sign_text(d.negative)
            &&& t.subrange(a, b) == d.integer
            &&& t.subrange(b, c) == fraction_text(d.fraction)
            &&& t.subrange(c, t.len() as int) == exponent_text(d.exponent)
        }),
{
    let sg = sign_text(d.negative);
    let fp = fraction_text(d.fraction);
    let ep = exponent_text(d.exponent);
    let t = format_decimal(d);
    assert(t == sg + d.integer + fp + ep);
    let a = sg.len() as int;
    let b = a + d.integer.len();
    let c = b + fp.len();
    assert(t.subrange(0, a) =~= sg);
    assert(t.subrange(a, b) =~= d.integer);
    assert(t.subrange(b, c) =~= fp);
    assert(t.subrange(c, t.len() as int) =~= ep);
}

/// A text made of the parts of a well-formed decimal reads as that decimal.
proof fn lemma_real_from_parts(t: Seq<char>, d: SpecDecimal, a: int, b: int, c: int)
    requires
        wf_decimal(d),
        a == sign_text(d.negative).len(),
        b == a + d.integer.len(),
        c == b + fraction_text(d.fraction).len(),
        t.len() == c + exponent_text(d.exponent).len(),
        t.subrange(0, a) == sign_text(d.negative),
        t.subrange(a, b) == d.integer,
        t.subrange(b, c) == fraction_text(d.fraction),
        t.subrange(c, t.len() as int) == exponent_text(d.exponent),
    ensures
        spec_real(t, 0) == Some((d, t.len() as int)),
{
    let fp = fraction_text(d.fraction);
    let ep = exponent_text(d.exponent);
    if let Some(x) = d.exponent {
        assert(ep.len() >= 2);
    }
    if d.negative {
        assert(t[0] == t.subrange(0, a)[0]);
    } else if d.integer.len() > 0 {
        assert(t[0] == t.subrange(a, b)[0]);
    } else {
        assert(t[0] == t.subrange(b, c)[0]);
    }
    assert(sign_at(t, 0) == (d.negative, a));
    if b < t.len() {
        if fp.len() > 0 {
            assert(t[b] == t.subrange(b, c)[0]);
        } else {
            assert(t[b] == t.subrange(c, t.len() as int)[0]);
        }
    }
    lemma_digit_part(t, a, d.integer);
    if let Some(f) = d.fraction {
        assert(t[b] == t.subrange(b, c)[0]);
        assert(t.subrange(b + 1, c) =~= t.subrange(b, c).subrange(1, fp.len() as int));
        assert(fp.subrange(1, fp.len() as int) =~= f);
        if c < t.len() {
            assert(t[c] == t.subrange(c, t.len() as int)[0]);
        }
        lemma_digit_part(t, b + 1, f);
    }
    lemma_exponent_round_trip(t, c, d.exponent);
}

proof fn lemma_decimal_round_trip(d: SpecDecimal)
    requires
        wf_decimal(d),
    ensures
        spec_real(format_decimal(d), 0) == Some((d, format_decimal(d).len() as int)),
{
    lemma_format_parts(d);
    let a = sign_text(d.negative).len() as int;
    let b = a + d.integer.len();
    let c = b + fraction_text(d.fraction).len();
    lemma_real_from_parts(format_decimal(d), d, a, b, c);
}

/// Writing out a number that was read and reading that text again gives
/// the same number, and the whole text is read.
pub proof fn lemma_number_round_trip(s: Seq<char>, i: int)
    requires
        0 <= i <= s.len(),
    ensures
        spec_number(s, i) matches Ok((n, _)) ==> {
            &&& spec_number(format_number(n), 0) matches Ok((m, j))
            &&& m == n
            &&& j == format_number(n).len()
        },
{
    if let Ok((n, _)) = spec_number(s, i) {
        let t = format_number(n);
        match n {
            SpecNumber::Real(d) => {
                lemma_real_wf(s, i);
                lemma_decimal_round_trip(d);
            },
            SpecNumber::Infinity { negative } => {
                assert(t[1] == 'I' && t[2] == 'n' && t[3] == 'f');
                assert(!in_class(t[1], Class::Digit));
                assert(spec_real(t, 0) is None);
                assert(same_letter(t[1], 'i') && same_letter(t[2], 'n') && same_letter(t[3], 'f'));
                assert(has_at_no_case(t, 1, seq!['i', 'n', 'f']));
            },
            SpecNumber::NaN => {
                assert(t[0] == 'N' && t[1] == 'a' && t[2] == 'N');
                assert(spec_real(t, 0) is None);
                assert(!same_letter(t[0], 'i'));
                assert(!has_at_no_case(t, 0, seq!['i', 'n', 'f']));
                assert(same_letter(t[0], 'n') && same_letter(t[1], 'a') && same_letter(t[2], 'n'));
                assert(has_at_no_case(t, 0, seq!['n', 'a', 'n']));
            },
        }
    }
}

} // verus!
