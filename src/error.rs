use vstd::prelude::*;

verus! {

/// The grammar rules that can be named in an error.
#[derive(Clone, Copy, Debug, PartialEq, Eq, Structural)]
pub enum Rule {
    Number,
    MetricName,
    MetricLabel,
    LabelString,
    Label,
    Labels,
    MetricDescriptor,
    MetricType,
    Sample,
    Family,
    Eof,
    OpenMetrics,
    Prometheus,
}

pub open spec fn rule_name(rule: Rule) -> Seq<char> {
    match rule {
        Rule::Number => "number"@,
        Rule::MetricName => "metric name"@,
        Rule::MetricLabel => "metric label"@,
        Rule::LabelString => "label string"@,
        Rule::Label => "label"@,
        Rule::Labels => "labels"@,
        Rule::MetricDescriptor => "metric descriptor"@,
        Rule::MetricType => "metric type"@,
        Rule::Sample => "sample"@,
        Rule::Family => "family"@,
        Rule::Eof => "eof"@,
        Rule::OpenMetrics => "openmetrics"@,
        Rule::Prometheus => "prometheus"@,
    }
}

impl Rule {
    /// The rule's name as it appears in diagnostics.
    pub fn name(&self) -> (r: &'static str)
        ensures
            r@ == rule_name(*self),
    {
        match self {
            Rule::Number => "number",
            Rule::MetricName => "metric name",
            Rule::MetricLabel => "metric label",
            Rule::LabelString => "label string",
            Rule::Label => "label",
            Rule::Labels => "labels",
            Rule::MetricDescriptor => "metric descriptor",
            Rule::MetricType => "metric type",
            Rule::Sample => "sample",
            Rule::Family => "family",
            Rule::Eof => "eof",
            Rule::OpenMetrics => "openmetrics",
            Rule::Prometheus => "prometheus",
        }
    }
}

/// A rule that was being matched, from `offset` on, when an inner rule failed.
#[derive(Clone, Copy, Debug, PartialEq, Eq, Structural)]
pub struct Context {
    pub rule: Rule,
    pub offset: usize,
}

/// Why the input was rejected.
///
/// `rule` is the innermost rule that failed and `offset` the character offset
/// at which it failed; `contexts` lists the enclosing rules, innermost first.
/// A `fatal` error comes from a rule that had already committed (a descriptor
/// after its keyword, the end of an exposition): no alternative is tried
/// after it.
#[derive(Clone, Debug, PartialEq)]
pub struct ParseError {
    pub rule: Rule,
    pub offset: usize,
    pub fatal: bool,
    pub contexts: Vec<Context>,
}

/// The model of a `ParseError`, with offsets as integers.
pub struct SpecParseError {
    pub rule: Rule,
    pub offset: int,
    pub fatal: bool,
    pub contexts: Seq<(Rule, int)>,
}

impl View for ParseError {
    type V = SpecParseError;

    open spec fn view(&self) -> SpecParseError {
        SpecParseError {
            rule: self.rule,
            offset: self.offset as int,
            fatal: self.fatal,
            contexts: self.contexts@.map_values(|c: Context| (c.rule, c.offset as int)),
        }
    }
}

/// What a rule yields at a position: a value and the position after it, or an error.
pub type Outcome<T> = Result<(T, int), SpecParseError>;

pub open spec fn error_at(rule: Rule, at: int, fatal: bool) -> SpecParseError {
    SpecParseError { rule, offset: at, fatal, contexts: Seq::empty() }
}

pub open spec fn failure<T>(rule: Rule, at: int, fatal: bool) -> Outcome<T> {
    Err(error_at(rule, at, fatal))
}

/// An error of an inner rule, seen from an enclosing rule that began at `start`.
pub open spec fn in_context(e: SpecParseError, rule: Rule, start: int) -> SpecParseError {
    SpecParseError {
        rule: e.rule,
        offset: e.offset,
        fatal: e.fatal,
        contexts: e.contexts.push((rule, start)),
    }
}

pub open spec fn within<T>(r: Outcome<T>, rule: Rule, start: int) -> Outcome<T> {
    match r {
        Ok(v) => Ok(v),
        Err(e) => Err(in_context(e, rule, start)),
    }
}

/// The model of an executable outcome.
pub open spec fn outcome_of<T: DeepView>(r: Result<(T, usize), ParseError>) -> Outcome<T::V> {
    match r {
        Ok((v, j)) => Ok((v.deep_view(), j as int)),
        Err(e) => Err(e@),
    }
}

pub fn fail(rule: Rule, at: usize, fatal: bool) -> (e: ParseError)
    ensures
        e@ == error_at(rule, at as int, fatal),
{
    let e = ParseError { rule, offset: at, fatal, contexts: Vec::new() };
    assert(e@.contexts =~= Seq::<(Rule, int)>::empty());
    e
}

pub fn add_context(e: ParseError, rule: Rule, start: usize) -> (r: ParseError)
    ensures
        r@ == in_context(e@, rule, start as int),
{
    let mut r = e;
    r.contexts.push(Context { rule, offset: start });
    assert(r@.contexts =~= e@.contexts.push((rule, start as int)));
    r
}

} // verus!
