use crate::error::{fail, failure, outcome_of, Outcome, ParseError, Rule};
use crate::text::{chars_of, string_of};
use super::{outcome_with_rest, rest_is_suffix, with_rest};
use vstd::prelude::*;

verus! {

pub open spec fn is_ascii_alpha(c: char) -> bool {
    ('a' <= c && c <= 'z') || ('A' <= c && c <= 'Z')
}

pub open spec fn is_ascii_digit(c: char) -> bool {
    '0' <= c && c <= '9'
}

/// The character classes whose runs the grammar reads.
#[derive(Clone, Copy, Debug, PartialEq, Eq, Structural)]
pub enum Class {
    /// `[a-zA-Z0-9_:]`, the characters of a metric name
    MetricName,
    /// `[a-zA-Z0-9_]`, the characters of a label name
    LabelName,
    /// `[0-9]`
    Digit,
    /// any character but a newline
    Line,
}

pub open spec fn in_class(c: char, class: Class) -> bool {
    match class {
        Class::MetricName => is_ascii_alpha(c) || is_ascii_digit(c) || c == '_' || c == ':',
        Class::LabelName => is_ascii_alpha(c) || is_ascii_digit(c) || c == '_',
        Class::Digit => is_ascii_digit(c),
        Class::Line => c != '\n',
    }
}

/// The end of the longest run of characters of `class` that starts at `i`.
pub open spec fn run_end(s: Seq<char>, i: int, class: Class) -> int
    decreases s.len() - i,
{
    if 0 <= i < s.len() && in_class(s[i], class) {
        run_end(s, i + 1, class)
    } else {
        i
    }
}

pub proof fn lemma_run_end(s: Seq<char>, i: int, class: Class)
    requires
        0 <= i <= s.len(),
    ensures
        i <= run_end(s, i, class) <= s.len(),
        forall|k: int| i <= k < run_end(s, i, class) ==> in_class(#[trigger] s[k], class),
        run_end(s, i, class) == s.len() || !in_class(s[run_end(s, i, class)], class),
    decreases s.len() - i,
{
    if i < s.len() && in_class(s[i], class) {
        lemma_run_end(s, i + 1, class);
    }
}

pub open spec fn is_name_initial(c: char) -> bool {
    is_ascii_alpha(c) || c == '_' || c == ':'
}

/// Matches a metric name `[a-zA-Z_:][a-zA-Z0-9_:]*`.
pub open spec fn spec_metric_name(s: Seq<char>, i: int) -> Outcome<Seq<char>> {
    if 0 <= i < s.len() && is_name_initial(s[i]) {
        let j = run_end(s, i, Class::MetricName);
        Ok((s.subrange(i, j), j))
    } else {
        failure(Rule::MetricName, i, false)
    }
}

/// Whether `c` may begin a metric name.
pub fn is_metric_name_initial_char(c: char) -> (r: bool)
    ensures
        r == is_name_initial(c),
{
    ('a' <= c && c <= 'z') || ('A' <= c && c <= 'Z') || c == '_' || c == ':'
}

/// Whether `c` may stand in a metric name.
pub fn is_metric_name_char(c: char) -> (r: bool)
    ensures
        r == in_class(c, Class::MetricName),
{
    ('a' <= c && c <= 'z') || ('A' <= c && c <= 'Z') || ('0' <= c && c <= '9') || c == '_'
        || c == ':'
}

pub fn class_has(c: char, class: Class) -> (r: bool)
    ensures
        r == in_class(c, class),
{
    match class {
        Class::MetricName => is_metric_name_char(c),
        Class::LabelName => ('a' <= c && c <= 'z') || ('A' <= c && c <= 'Z') || ('0' <= c && c
            <= '9') || c == '_',
        Class::Digit => '0' <= c && c <= '9',
        Class::Line => c != '\n',
    }
}

/// The end of the run of `class` that starts at `i`.
pub fn run_end_at(s: &Vec<char>, i: usize, class: Class) -> (j: usize)
    requires
        i <= s@.len(),
    ensures
        j == run_end(s@, i as int, class),
        i <= j <= s@.len(),
{
    proof {
        lemma_run_end(s@, i as int, class);
    }
    let mut k = i;
    while k < s.len() && class_has(s[k], class)
        invariant
            i <= k <= s@.len(),
            run_end(s@, k as int, class) == run_end(s@, i as int, class),
        decreases s@.len() - k,
    {
        k = k + 1;
    }
    k
}

pub fn metric_name_at(s: &Vec<char>, i: usize) -> (r: Result<(String, usize), ParseError>)
    requires
        i <= s@.len(),
    ensures
        outcome_of(r) == spec_metric_name(s@, i as int),
{
    if i < s.len() && is_metric_name_initial_char(s[i]) {
        let j = run_end_at(s, i, Class::MetricName);
        Ok((string_of(s, i, j), j))
    } else {
        Err(fail(Rule::MetricName, i, false))
    }
}

/// Parse a metric name: `[a-zA-Z_:][a-zA-Z0-9_:]*`
pub fn metric_name(input: &str) -> (r: Result<(&str, String), ParseError>)
    ensures
        outcome_with_rest(input@, r) == spec_metric_name(input@, 0),
        rest_is_suffix(input@, r),
{
    let s = chars_of(input);
    let r = metric_name_at(&s, 0);
    proof {
        lemma_run_end(s@, 0, Class::MetricName);
    }
    with_rest(input, r)
}

} // verus!
