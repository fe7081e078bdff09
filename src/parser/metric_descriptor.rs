use crate::error::{
    add_context, fail, failure, in_context, outcome_of, Outcome, ParseError, Rule, SpecParseError,
};
use crate::metric_descriptor::{MetricDescriptor, MetricType, SpecDescriptor, SpecMetricType};
use crate::text::{chars_of, has_at, string_of, tag_at};
use super::metric_name::{lemma_run_end, metric_name_at, run_end, run_end_at, spec_metric_name, Class};
use super::string::{lemma_scan_text_end, scan_text, scan_text_at};
use super::{outcome_with_rest, rest_is_suffix, with_rest};
use vstd::prelude::*;

verus! {

/// The keywords of descriptor lines.
#[derive(Clone, Copy, Debug, PartialEq, Eq, Structural)]
pub enum Keyword {
    Help,
    Type,
    Unit,
}

/// The keyword of a descriptor with the space after it.
pub open spec fn keyword_word(keyword: Keyword) -> Seq<char> {
    match keyword {
        Keyword::Help => seq!['H', 'E', 'L', 'P', ' '],
        Keyword::Type => seq!['T', 'Y', 'P', 'E', ' '],
        Keyword::Unit => seq!['U', 'N', 'I', 'T', ' '],
    }
}

/// `HELP `, `TYPE ` or `UNIT ` at `i`.
pub open spec fn keyword_at(s: Seq<char>, i: int) -> Option<Keyword> {
    if has_at(s, i, keyword_word(Keyword::Help)) {
        Some(Keyword::Help)
    } else if has_at(s, i, keyword_word(Keyword::Type)) {
        Some(Keyword::Type)
    } else if has_at(s, i, keyword_word(Keyword::Unit)) {
        Some(Keyword::Unit)
    } else {
        None
    }
}

/// The metric type that a TYPE line names: one of the lower-case keywords,
/// or else the text as an unknown type.
pub open spec fn type_named(t: Seq<char>) -> SpecMetricType {
    if t == "counter"@ {
        SpecMetricType::Counter
    } else if t == "gauge"@ {
        SpecMetricType::Gauge
    } else if t == "gaugehistogram"@ {
        SpecMetricType::Gaugehistogram
    } else if t == "histogram"@ {
        SpecMetricType::Histogram
    } else if t == "info"@ {
        SpecMetricType::Info
    } else if t == "stateset"@ {
        SpecMetricType::Stateset
    } else if t == "summary"@ {
        SpecMetricType::Summary
    } else {
        SpecMetricType::Unknown(t)
    }
}

/// The body of a TYPE line: the non-empty rest of the line.
pub open spec fn spec_metric_type(s: Seq<char>, j: int) -> Outcome<SpecMetricType> {
    let e = run_end(s, j, Class::Line);
    if e > j {
        Ok((type_named(s.subrange(j, e)), e))
    } else {
        failure(Rule::MetricType, j, false)
    }
}

/// The body of a descriptor line, from `j` on, for the metric `metric`.
pub open spec fn spec_descriptor_body(
    s: Seq<char>,
    keyword: Keyword,
    metric: Seq<char>,
    j: int,
) -> Outcome<SpecDescriptor> {
    match keyword {
        Keyword::Help => {
            let (help, e) = scan_text(s, j, false);
            Ok((SpecDescriptor::Help { metric, help }, e))
        },
        Keyword::Type => match spec_metric_type(s, j) {
            Ok((metric_type, e)) => Ok((SpecDescriptor::Type { metric, metric_type }, e)),
            Err(err) => Err(err),
        },
        Keyword::Unit => {
            let e = run_end(s, j, Class::MetricName);
            Ok((SpecDescriptor::Unit { metric, unit: s.subrange(j, e) }, e))
        },
    }
}

/// `keyword " " metric-name " " body`: a descriptor line after its `# `,
/// without its newline.
pub open spec fn spec_keyword_descriptor(s: Seq<char>, i: int, keyword: Keyword) -> Outcome<
    SpecDescriptor,
> {
    if has_at(s, i, keyword_word(keyword)) {
        match spec_metric_name(s, i + 5) {
            Err(e) => Err(e),
            Ok((metric, j)) => if 0 <= j < s.len() && s[j] == ' ' {
                spec_descriptor_body(s, keyword, metric, j + 1)
            } else {
                failure(Rule::MetricDescriptor, j, false)
            },
        }
    } else {
        failure(Rule::MetricDescriptor, i, false)
    }
}

/// An error after which no alternative is tried.
pub open spec fn committed(e: SpecParseError) -> SpecParseError {
    SpecParseError { fatal: true, ..e }
}

/// `"# " keyword " " metric-name " " body "\n"`. Once `# ` and a keyword
/// with its space are read, every failure is fatal.
pub open spec fn spec_metric_descriptor(s: Seq<char>, i: int) -> Outcome<SpecDescriptor> {
    match (if has_at(s, i, seq!['#', ' ']) {
        keyword_at(s, i + 2)
    } else {
        None
    }) {
        None => failure(Rule::MetricDescriptor, i, false),
        Some(keyword) => match spec_keyword_descriptor(s, i + 2, keyword) {
            Err(e) => Err(committed(in_context(e, Rule::MetricDescriptor, i))),
            Ok((d, e)) => if 0 <= e < s.len() && s[e] == '\n' {
                Ok((d, e + 1))
            } else {
                failure(Rule::MetricDescriptor, e, true)
            },
        },
    }
}

pub proof fn lemma_keyword_descriptor_end(s: Seq<char>, i: int, keyword: Keyword)
    requires
        0 <= i <= s.len(),
    ensures
        spec_keyword_descriptor(s, i, keyword) matches Ok((_, k)) ==> i < k <= s.len(),
{
    if has_at(s, i, keyword_word(keyword)) {
        lemma_run_end(s, i + 5, Class::MetricName);
        if let Ok((metric, j)) = spec_metric_name(s, i + 5) {
            if 0 <= j < s.len() {
                lemma_scan_text_end(s, j + 1, false);
                lemma_run_end(s, j + 1, Class::Line);
                lemma_run_end(s, j + 1, Class::MetricName);
            }
        }
    }
}

pub proof fn lemma_descriptor_advances(s: Seq<char>, i: int)
    requires
        0 <= i <= s.len(),
    ensures
        spec_metric_descriptor(s, i) matches Ok((_, k)) ==> i < k <= s.len(),
{
    if has_at(s, i, seq!['#', ' ']) {
        if let Some(keyword) = keyword_at(s, i + 2) {
            lemma_keyword_descriptor_end(s, i + 2, keyword);
        }
    }
}

fn keyword_exec(s: &Vec<char>, i: usize) -> (r: Option<Keyword>)
    requires
        i <= s@.len(),
    ensures
        r == keyword_at(s@, i as int),
        r is Some ==> i + 5 <= s.len(),
{
    let help = ['H', 'E', 'L', 'P', ' '];
    let type_ = ['T', 'Y', 'P', 'E', ' '];
    let unit = ['U', 'N', 'I', 'T', ' '];
    assert(help@ == keyword_word(Keyword::Help));
    assert(type_@ == keyword_word(Keyword::Type));
    assert(unit@ == keyword_word(Keyword::Unit));
    if tag_at(s, i, help.as_slice()) {
        Some(Keyword::Help)
    } else if tag_at(s, i, type_.as_slice()) {
        Some(Keyword::Type)
    } else if tag_at(s, i, unit.as_slice()) {
        Some(Keyword::Unit)
    } else {
        None
    }
}

/// Whether the characters of `s` from `j` up to `e` are `lit`.
fn word_is(s: &Vec<char>, j: usize, e: usize, lit: &[char]) -> (r: bool)
    requires
        j <= e <= s@.len(),
    ensures
        r == (s@.subrange(j as int, e as int) == lit@),
{
    if e - j != lit.len() {
        return false;
    }
    tag_at(s, j, lit)
}

fn type_named_exec(s: &Vec<char>, j: usize, e: usize) -> (r: MetricType)
    requires
        j <= e <= s@.len(),
    ensures
        r@ == type_named(s@.subrange(j as int, e as int)),
{
    let counter = ['c', 'o', 'u', 'n', 't', 'e', 'r'];
    let gauge = ['g', 'a', 'u', 'g', 'e'];
    let gaugehistogram = ['g', 'a', 'u', 'g', 'e', 'h', 'i', 's', 't', 'o', 'g', 'r', 'a', 'm'];
    let histogram = ['h', 'i', 's', 't', 'o', 'g', 'r', 'a', 'm'];
    let info = ['i', 'n', 'f', 'o'];
    let stateset = ['s', 't', 'a', 't', 'e', 's', 'e', 't'];
    let summary = ['s', 'u', 'm', 'm', 'a', 'r', 'y'];
    proof {
        reveal_strlit("counter");
        reveal_strlit("gauge");
        reveal_strlit("gaugehistogram");
        reveal_strlit("histogram");
        reveal_strlit("info");
        reveal_strlit("stateset");
        reveal_strlit("summary");
        assert(counter@ =~= "counter"@);
        assert(gauge@ =~= "gauge"@);
        assert(gaugehistogram@ =~= "gaugehistogram"@);
        assert(histogram@ =~= "histogram"@);
        assert(info@ =~= "info"@);
        assert(stateset@ =~= "stateset"@);
        assert(summary@ =~= "summary"@);
    }
    if word_is(s, j, e, counter.as_slice()) {
        MetricType::Counter
    } else if word_is(s, j, e, gauge.as_slice()) {
        MetricType::Gauge
    } else if word_is(s, j, e, gaugehistogram.as_slice()) {
        MetricType::Gaugehistogram
    } else if word_is(s, j, e, histogram.as_slice()) {
        MetricType::Histogram
    } else if word_is(s, j, e, info.as_slice()) {
        MetricType::Info
    } else if word_is(s, j, e, stateset.as_slice()) {
        MetricType::Stateset
    } else if word_is(s, j, e, summary.as_slice()) {
        MetricType::Summary
    } else {
        MetricType::Unknown(string_of(s, j, e))
    }
}

fn metric_type_at(s: &Vec<char>, j: usize) -> (r: Result<(MetricType, usize), ParseError>)
    requires
        j <= s@.len(),
    ensures
        outcome_of(r) == spec_metric_type(s@, j as int),
        r matches Ok((_, e)) ==> e <= s@.len(),
{
    let e = run_end_at(s, j, Class::Line);
    if e > j {
        Ok((type_named_exec(s, j, e), e))
    } else {
        Err(fail(Rule::MetricType, j, false))
    }
}

fn descriptor_body_at(s: &Vec<char>, keyword: Keyword, metric: String, j: usize) -> (r: Result<
    (MetricDescriptor, usize),
    ParseError,
>)
    requires
        j <= s@.len(),
    ensures
        outcome_of(r) == spec_descriptor_body(s@, keyword, metric@, j as int),
        r matches Ok((_, e)) ==> e <= s@.len(),
{
    match keyword {
        Keyword::Help => {
            let (help, e) = scan_text_at(s, j, false);
            Ok((MetricDescriptor::Help { metric, help }, e))
        },
        Keyword::Type => match metric_type_at(s, j) {
            Ok((metric_type, e)) => Ok((MetricDescriptor::Type { metric, metric_type }, e)),
            Err(err) => Err(err),
        },
        Keyword::Unit => {
            let e = run_end_at(s, j, Class::MetricName);
            Ok((MetricDescriptor::Unit { metric, unit: string_of(s, j, e) }, e))
        },
    }
}

fn commit(e: ParseError) -> (r: ParseError)
    ensures
        r@ == committed(e@),
{
    let mut r = e;
    r.fatal = true;
    r
}

fn keyword_descriptor_at(s: &Vec<char>, i: usize, keyword: Keyword) -> (r: Result<
    (MetricDescriptor, usize),
    ParseError,
>)
    requires
        i <= s@.len(),
    ensures
        outcome_of(r) == spec_keyword_descriptor(s@, i as int, keyword),
        r matches Ok((_, k)) ==> i < k <= s@.len(),
{
    proof {
        lemma_keyword_descriptor_end(s@, i as int, keyword);
    }
    if keyword_exec(s, i) != Some(keyword) {
        return Err(fail(Rule::MetricDescriptor, i, false));
    }
    match metric_name_at(s, i + 5) {
        Err(e) => Err(e),
        Ok((metric, j)) => {
            proof {
                lemma_run_end(s@, i + 5, Class::MetricName);
            }
            if j < s.len() && s[j] == ' ' {
                descriptor_body_at(s, keyword, metric, j + 1)
            } else {
                Err(fail(Rule::MetricDescriptor, j, false))
            }
        },
    }
}

pub fn metric_descriptor_at(s: &Vec<char>, i: usize) -> (r: Result<
    (MetricDescriptor, usize),
    ParseError,
>)
    requires
        i <= s@.len(),
    ensures
        outcome_of(r) == spec_metric_descriptor(s@, i as int),
        r matches Ok((_, k)) ==> i < k <= s@.len(),
{
    proof {
        lemma_descriptor_advances(s@, i as int);
    }
    let hash = ['#', ' '];
    assert(hash@ == seq!['#', ' ']);
    let keyword = if tag_at(s, i, hash.as_slice()) {
        keyword_exec(s, i + 2)
    } else {
        None
    };
    let keyword = match keyword {
        None => {
            return Err(fail(Rule::MetricDescriptor, i, false));
        },
        Some(keyword) => keyword,
    };
    match keyword_descriptor_at(s, i + 2, keyword) {
        Err(e) => Err(commit(add_context(e, Rule::MetricDescriptor, i))),
        Ok((d, e)) => if e < s.len() && s[e] == '\n' {
            Ok((d, e + 1))
        } else {
            Err(fail(Rule::MetricDescriptor, e, true))
        },
    }
}

/// Parses one descriptor line: `# HELP`, `# TYPE` or `# UNIT`, with its newline.
pub fn metric_descriptor(input: &str) -> (r: Result<(&str, MetricDescriptor), ParseError>)
    ensures
        outcome_with_rest(input@, r) == spec_metric_descriptor(input@, 0),
        rest_is_suffix(input@, r),
{
    let s = chars_of(input);
    let r = metric_descriptor_at(&s, 0);
    with_rest(input, r)
}


/// Parses a HELP descriptor after its `# `: `HELP name text`, without the newline.
pub fn help_descriptor(input: &str) -> (r: Result<(&str, MetricDescriptor), ParseError>)
    ensures
        outcome_with_rest(input@, r) == spec_keyword_descriptor(input@, 0, Keyword::Help),
        rest_is_suffix(input@, r),
{
    let s = chars_of(input);
    let r = keyword_descriptor_at(&s, 0, Keyword::Help);
    with_rest(input, r)
}

/// Parses a TYPE descriptor after its `# `: `TYPE name type`, without the newline.
pub fn type_descriptor(input: &str) -> (r: Result<(&str, MetricDescriptor), ParseError>)
    ensures
        outcome_with_rest(input@, r) == spec_keyword_descriptor(input@, 0, Keyword::Type),
        rest_is_suffix(input@, r),
{
    let s = chars_of(input);
    let r = keyword_descriptor_at(&s, 0, Keyword::Type);
    with_rest(input, r)
}

/// Parses a UNIT descriptor after its `# `: `UNIT name unit`, without the newline.
pub fn unit_descriptor(input: &str) -> (r: Result<(&str, MetricDescriptor), ParseError>)
    ensures
        outcome_with_rest(input@, r) == spec_keyword_descriptor(input@, 0, Keyword::Unit),
        rest_is_suffix(input@, r),
{
    let s = chars_of(input);
    let r = keyword_descriptor_at(&s, 0, Keyword::Unit);
    with_rest(input, r)
}

} // verus!
