//! The grammar of the exposition format.
//!
//! Each rule is a spec function from the input characters and a start
//! position to an `Outcome`: the value and the position after it, or the
//! error. Each executable rule is proved to return exactly that outcome.
pub mod label;
pub mod metric_descriptor;
pub mod metric_name;
pub mod number;
pub mod string;

pub use label::{label, labels, metric_label};
pub use metric_descriptor::{
    help_descriptor, metric_descriptor, type_descriptor, unit_descriptor,
};
pub use metric_name::{is_metric_name_char, is_metric_name_initial_char, metric_name};
pub use number::number;

use crate::error::{
    add_context, error_at, fail, failure, in_context, outcome_of, Outcome, ParseError, Rule,
};
use crate::family::{Family, SpecFamily};
use crate::label::{Label, SpecLabel};
use crate::metric_descriptor::{MetricDescriptor, SpecDescriptor};
use crate::sample::{Sample, SpecSample};
use crate::text::{chars_of, has_at, rest_of, tag_at};
use label::{labels_at, lemma_labels_end, spec_labels};
use metric_descriptor::{lemma_descriptor_advances, metric_descriptor_at, spec_metric_descriptor};
use metric_name::{lemma_run_end, metric_name_at, spec_metric_name, Class};
use number::{lemma_number_end, number_at, spec_number};
use vstd::prelude::*;

verus! {

/// The outcome of a public rule, which hands back the input that is left.
pub open spec fn outcome_with_rest<T: DeepView>(
    input: Seq<char>,
    r: Result<(&str, T), ParseError>,
) -> Outcome<T::V> {
    match r {
        Ok((rest, v)) => Ok((v.deep_view(), input.len() - rest@.len())),
        Err(e) => Err(e@),
    }
}

/// What is handed back as left over is the end of the input.
pub open spec fn rest_is_suffix<T>(input: Seq<char>, r: Result<(&str, T), ParseError>) -> bool {
    r matches Ok((rest, _)) ==> rest@.len() <= input.len() && rest@ == input.subrange(
        input.len() - rest@.len(),
        input.len() as int,
    )
}

/// Turns the position reached by a rule into the input left after it.
pub(crate) fn with_rest<'a, T: DeepView>(input: &'a str, r: Result<(T, usize), ParseError>) -> (out:
    Result<(&'a str, T), ParseError>)
    requires
        r matches Ok((_, j)) ==> j <= input@.len(),
    ensures
        outcome_with_rest(input@, out) == outcome_of(r),
        rest_is_suffix(input@, out),
{
    match r {
        Ok((v, j)) => {
            let rest = rest_of(input, j);
            Ok((rest, v))
        },
        Err(e) => Err(e),
    }
}


/// An outcome with `xs` put before the values it holds.
pub open spec fn prepend<T>(xs: Seq<T>, r: Outcome<Seq<T>>) -> Outcome<Seq<T>> {
    match r {
        Ok((ys, k)) => Ok((xs + ys, k)),
        Err(e) => Err(e),
    }
}

pub proof fn lemma_prepend_prepend<T>(xs: Seq<T>, ys: Seq<T>, r: Outcome<Seq<T>>)
    ensures
        prepend(xs, prepend(ys, r)) == prepend(xs + ys, r),
{
    if let Ok((zs, k)) = r {
        assert(xs + (ys + zs) =~= xs + ys + zs);
    }
}

/// `metric-name labels? " " number "\n"`; without a label block the sample
/// has no labels.
pub open spec fn spec_sample(s: Seq<char>, i: int) -> Outcome<SpecSample> {
    match spec_metric_name(s, i) {
        Err(e) => Err(in_context(e, Rule::Sample, i)),
        Ok((name, j)) => {
            let block = if 0 <= j < s.len() && s[j] == '{' {
                spec_labels(s, j)
            } else {
                Ok((Seq::empty(), j))
            };
            match block {
                Err(e) => Err(in_context(e, Rule::Sample, i)),
                Ok((labels, k)) => if 0 <= k < s.len() && s[k] == ' ' {
                    match spec_number(s, k + 1) {
                        Err(e) => Err(in_context(e, Rule::Sample, i)),
                        Ok((number, m)) => if 0 <= m < s.len() && s[m] == '\n' {
                            Ok((SpecSample { name, labels, number }, m + 1))
                        } else {
                            failure(Rule::Sample, m, false)
                        },
                    }
                } else {
                    failure(Rule::Sample, k, false)
                },
            }
        },
    }
}

pub proof fn lemma_sample_advances(s: Seq<char>, i: int)
    requires
        0 <= i <= s.len(),
    ensures
        spec_sample(s, i) matches Ok((_, k)) ==> i < k <= s.len(),
{
    lemma_run_end(s, i, Class::MetricName);
    if let Ok((name, j)) = spec_metric_name(s, i) {
        lemma_labels_end(s, j);
        let block = if 0 <= j < s.len() && s[j] == '{' {
            spec_labels(s, j)
        } else {
            Ok((Seq::empty(), j))
        };
        if let Ok((labels, k)) = block {
            if 0 <= k < s.len() {
                lemma_number_end(s, k + 1);
            }
        }
    }
}

/// Descriptor lines, as many as follow one another from `i` on. A fatal
/// error of one of them is the outcome.
pub open spec fn spec_descriptors(s: Seq<char>, i: int) -> Outcome<Seq<SpecDescriptor>>
    decreases s.len() - i,
{
    if 0 <= i <= s.len() {
        match spec_metric_descriptor(s, i) {
            Ok((d, j)) => {
                proof {
                    lemma_descriptor_advances(s, i);
                }
                prepend(seq![d], spec_descriptors(s, j))
            },
            Err(e) => if e.fatal {
                Err(e)
            } else {
                Ok((Seq::empty(), i))
            },
        }
    } else {
        Ok((Seq::empty(), i))
    }
}

/// Sample lines, as many as follow one another from `i` on.
pub open spec fn spec_samples(s: Seq<char>, i: int) -> Outcome<Seq<SpecSample>>
    decreases s.len() - i,
{
    if 0 <= i <= s.len() {
        match spec_sample(s, i) {
            Ok((x, j)) => {
                proof {
                    lemma_sample_advances(s, i);
                }
                prepend(seq![x], spec_samples(s, j))
            },
            Err(e) => if e.fatal {
                Err(e)
            } else {
                Ok((Seq::empty(), i))
            },
        }
    } else {
        Ok((Seq::empty(), i))
    }
}

/// Descriptors followed by samples. A strict family needs at least one
/// sample; a permissive one needs at least one line of either kind.
pub open spec fn spec_family(s: Seq<char>, i: int, strict: bool) -> Outcome<SpecFamily> {
    match spec_descriptors(s, i) {
        Err(e) => Err(in_context(e, Rule::Family, i)),
        Ok((descriptors, j)) => match spec_samples(s, j) {
            Err(e) => Err(in_context(e, Rule::Family, i)),
            Ok((samples, k)) => if samples.len() == 0 && (strict || descriptors.len() == 0) {
                failure(Rule::Family, j, false)
            } else {
                Ok((SpecFamily { descriptors, samples }, k))
            },
        },
    }
}

proof fn lemma_descriptors_end(s: Seq<char>, i: int)
    requires
        0 <= i <= s.len(),
    ensures
        spec_descriptors(s, i) matches Ok((ds, j)) ==> i <= j <= s.len() && (ds.len() > 0 ==> i
            < j),
    decreases s.len() - i,
{
    lemma_descriptor_advances(s, i);
    if let Ok((d, j)) = spec_metric_descriptor(s, i) {
        lemma_descriptors_end(s, j);
    }
}

proof fn lemma_samples_end(s: Seq<char>, i: int)
    requires
        0 <= i <= s.len(),
    ensures
        spec_samples(s, i) matches Ok((xs, j)) ==> i <= j <= s.len() && (xs.len() > 0 ==> i < j),
    decreases s.len() - i,
{
    lemma_sample_advances(s, i);
    if let Ok((x, j)) = spec_sample(s, i) {
        lemma_samples_end(s, j);
    }
}

pub proof fn lemma_family_advances(s: Seq<char>, i: int, strict: bool)
    requires
        0 <= i <= s.len(),
    ensures
        spec_family(s, i, strict) matches Ok((_, k)) ==> i < k <= s.len(),
{
    lemma_descriptors_end(s, i);
    if let Ok((ds, j)) = spec_descriptors(s, i) {
        lemma_samples_end(s, j);
    }
}

/// Families, as many as follow one another from `i` on.
pub open spec fn spec_families(s: Seq<char>, i: int, strict: bool) -> Outcome<Seq<SpecFamily>>
    decreases s.len() - i,
{
    if 0 <= i <= s.len() {
        match spec_family(s, i, strict) {
            Ok((f, j)) => {
                proof {
                    lemma_family_advances(s, i, strict);
                }
                prepend(seq![f], spec_families(s, j, strict))
            },
            Err(e) => if e.fatal {
                Err(e)
            } else {
                Ok((Seq::empty(), i))
            },
        }
    } else {
        Ok((Seq::empty(), i))
    }
}

proof fn lemma_families_end(s: Seq<char>, i: int, strict: bool)
    requires
        0 <= i <= s.len(),
    ensures
        spec_families(s, i, strict) matches Ok((_, j)) ==> i <= j <= s.len(),
    decreases s.len() - i,
{
    lemma_family_advances(s, i, strict);
    if let Ok((f, j)) = spec_family(s, i, strict) {
        lemma_families_end(s, j, strict);
    }
}

/// An OpenMetrics exposition: strict families, then `# EOF`, an optional
/// newline, and the end of the input.
pub open spec fn spec_openmetrics(s: Seq<char>) -> Outcome<Seq<SpecFamily>> {
    match spec_families(s, 0, true) {
        Err(e) => Err(in_context(e, Rule::OpenMetrics, 0)),
        Ok((families, j)) => if has_at(s, j, seq!['#', ' ', 'E', 'O', 'F']) {
            let k = if j + 5 < s.len() && s[j + 5] == '\n' {
                j + 6
            } else {
                j + 5
            };
            if k == s.len() {
                Ok((families, k))
            } else {
                Err(in_context(error_at(Rule::Eof, k, true), Rule::OpenMetrics, 0))
            }
        } else {
            Err(in_context(error_at(Rule::Eof, j, false), Rule::OpenMetrics, 0))
        },
    }
}

/// A scrape body: permissive families, then the end of the input.
pub open spec fn spec_prometheus(s: Seq<char>) -> Outcome<Seq<SpecFamily>> {
    match spec_families(s, 0, false) {
        Err(e) => Err(in_context(e, Rule::Prometheus, 0)),
        Ok((families, j)) => if j == s.len() {
            Ok((families, j))
        } else {
            Err(in_context(error_at(Rule::Eof, j, true), Rule::Prometheus, 0))
        },
    }
}

pub(crate) fn sample_at(s: &Vec<char>, i: usize) -> (r: Result<(Sample, usize), ParseError>)
    requires
        i <= s@.len(),
    ensures
        outcome_of(r) == spec_sample(s@, i as int),
        r matches Ok((_, k)) ==> i < k <= s@.len(),
{
    proof {
        lemma_sample_advances(s@, i as int);
    }
    let (name, j) = match metric_name_at(s, i) {
        Err(e) => {
            return Err(add_context(e, Rule::Sample, i));
        },
        Ok(v) => v,
    };
    proof {
        lemma_run_end(s@, i as int, Class::MetricName);
    }
    let (labels, k) = if j < s.len() && s[j] == '{' {
        match labels_at(s, j) {
            Err(e) => {
                return Err(add_context(e, Rule::Sample, i));
            },
            Ok(v) => v,
        }
    } else {
        let none: Vec<Label> = Vec::new();
        assert(none.deep_view() =~= Seq::<SpecLabel>::empty());
        (none, j)
    };
    if !(k < s.len() && s[k] == ' ') {
        return Err(fail(Rule::Sample, k, false));
    }
    let (number, m) = match number_at(s, k + 1) {
        Err(e) => {
            return Err(add_context(e, Rule::Sample, i));
        },
        Ok(v) => v,
    };
    if m < s.len() && s[m] == '\n' {
        Ok((Sample::with_labels(name.as_str(), number, labels), m + 1))
    } else {
        Err(fail(Rule::Sample, m, false))
    }
}

fn descriptors_at(s: &Vec<char>, i: usize) -> (r: Result<(Vec<MetricDescriptor>, usize), ParseError>)
    requires
        i <= s@.len(),
    ensures
        outcome_of(r) == spec_descriptors(s@, i as int),
        r matches Ok((_, k)) ==> i <= k <= s@.len(),
{
    let ghost total = spec_descriptors(s@, i as int);
    let mut out: Vec<MetricDescriptor> = Vec::new();
    let mut k = i;
    assert(prepend(out.deep_view(), spec_descriptors(s@, k as int)) == total) by {
        if let Ok((ys, m)) = total {
            assert(out.deep_view() + ys =~= ys);
        }
    }
    loop
        invariant
            i <= k <= s@.len(),
            total == spec_descriptors(s@, i as int),
            prepend(out.deep_view(), spec_descriptors(s@, k as int)) == total,
        decreases s@.len() - k,
    {
        match metric_descriptor_at(s, k) {
            Err(e) => {
                if e.fatal {
                    return Err(e);
                }
                assert(out.deep_view() + Seq::<SpecDescriptor>::empty() =~= out.deep_view());
                return Ok((out, k));
            },
            Ok((d, j)) => {
                let ghost before = out.deep_view();
                let ghost dv = d@;
                out.push(d);
                assert(out.deep_view() =~= before + seq![dv]);
                proof {
                    lemma_prepend_prepend(before, seq![dv], spec_descriptors(s@, j as int));
                }
                k = j;
            },
        }
    }
}

fn samples_at(s: &Vec<char>, i: usize) -> (r: Result<(Vec<Sample>, usize), ParseError>)
    requires
        i <= s@.len(),
    ensures
        outcome_of(r) == spec_samples(s@, i as int),
        r matches Ok((_, k)) ==> i <= k <= s@.len(),
{
    let ghost total = spec_samples(s@, i as int);
    let mut out: Vec<Sample> = Vec::new();
    let mut k = i;
    assert(prepend(out.deep_view(), spec_samples(s@, k as int)) == total) by {
        if let Ok((ys, m)) = total {
            assert(out.deep_view() + ys =~= ys);
        }
    }
    loop
        invariant
            i <= k <= s@.len(),
            total == spec_samples(s@, i as int),
            prepend(out.deep_view(), spec_samples(s@, k as int)) == total,
        decreases s@.len() - k,
    {
        match sample_at(s, k) {
            Err(e) => {
                if e.fatal {
                    return Err(e);
                }
                assert(out.deep_view() + Seq::<SpecSample>::empty() =~= out.deep_view());
                return Ok((out, k));
            },
            Ok((x, j)) => {
                let ghost before = out.deep_view();
                let ghost xv = x@;
                out.push(x);
                assert(out.deep_view() =~= before + seq![xv]);
                proof {
                    lemma_prepend_prepend(before, seq![xv], spec_samples(s@, j as int));
                }
                k = j;
            },
        }
    }
}

pub(crate) fn family_at(s: &Vec<char>, i: usize, strict: bool) -> (r: Result<
    (Family, usize),
    ParseError,
>)
    requires
        i <= s@.len(),
    ensures
        outcome_of(r) == spec_family(s@, i as int, strict),
        r matches Ok((_, k)) ==> i < k <= s@.len(),
{
    proof {
        lemma_family_advances(s@, i as int, strict);
    }
    let (descriptors, j) = match descriptors_at(s, i) {
        Err(e) => {
            return Err(add_context(e, Rule::Family, i));
        },
        Ok(v) => v,
    };
    let (samples, k) = match samples_at(s, j) {
        Err(e) => {
            return Err(add_context(e, Rule::Family, i));
        },
        Ok(v) => v,
    };
    if samples.len() == 0 && (strict || descriptors.len() == 0) {
        Err(fail(Rule::Family, j, false))
    } else {
        Ok((Family::new(descriptors, samples), k))
    }
}

fn families_at(s: &Vec<char>, i: usize, strict: bool) -> (r: Result<(Vec<Family>, usize), ParseError>)
    requires
        i <= s@.len(),
    ensures
        outcome_of(r) == spec_families(s@, i as int, strict),
        r matches Ok((_, k)) ==> i <= k <= s@.len(),
{
    let ghost total = spec_families(s@, i as int, strict);
    let mut out: Vec<Family> = Vec::new();
    let mut k = i;
    assert(prepend(out.deep_view(), spec_families(s@, k as int, strict)) == total) by {
        if let Ok((ys, m)) = total {
            assert(out.deep_view() + ys =~= ys);
        }
    }
    loop
        invariant
            i <= k <= s@.len(),
            total == spec_families(s@, i as int, strict),
            prepend(out.deep_view(), spec_families(s@, k as int, strict)) == total,
        decreases s@.len() - k,
    {
        match family_at(s, k, strict) {
            Err(e) => {
                if e.fatal {
                    return Err(e);
                }
                assert(out.deep_view() + Seq::<SpecFamily>::empty() =~= out.deep_view());
                return Ok((out, k));
            },
            Ok((f, j)) => {
                let ghost before = out.deep_view();
                let ghost fv = f@;
                out.push(f);
                assert(out.deep_view() =~= before + seq![fv]);
                proof {
                    lemma_prepend_prepend(before, seq![fv], spec_families(s@, j as int, strict));
                }
                k = j;
            },
        }
    }
}

/// Parses one sample line, with its newline.
pub fn sample(input: &str) -> (r: Result<(&str, Sample), ParseError>)
    ensures
        outcome_with_rest(input@, r) == spec_sample(input@, 0),
        rest_is_suffix(input@, r),
{
    let s = chars_of(input);
    let r = sample_at(&s, 0);
    with_rest(input, r)
}

/// Parses one family: descriptor lines, then at least one sample line.
pub fn family(input: &str) -> (r: Result<(&str, Family), ParseError>)
    ensures
        outcome_with_rest(input@, r) == spec_family(input@, 0, true),
        rest_is_suffix(input@, r),
{
    let s = chars_of(input);
    let r = family_at(&s, 0, true);
    with_rest(input, r)
}

/// Parses an OpenMetrics exposition
///
/// This must be terminated with `# EOF`, and nothing may follow it but one
/// newline. What is left is always empty.
pub fn openmetrics(input: &str) -> (r: Result<(&str, Vec<Family>), ParseError>)
    ensures
        outcome_with_rest(input@, r) == spec_openmetrics(input@),
        rest_is_suffix(input@, r),
        r matches Ok((rest, _)) ==> rest@.len() == 0,
{
    let s = chars_of(input);
    let (families, j) = match families_at(&s, 0, true) {
        Err(e) => {
            return Err(add_context(e, Rule::OpenMetrics, 0));
        },
        Ok(v) => v,
    };
    let marker = ['#', ' ', 'E', 'O', 'F'];
    assert(marker@ == seq!['#', ' ', 'E', 'O', 'F']);
    if !tag_at(&s, j, marker.as_slice()) {
        return Err(add_context(fail(Rule::Eof, j, false), Rule::OpenMetrics, 0));
    }
    let k = if j + 5 < s.len() && s[j + 5] == '\n' {
        j + 6
    } else {
        j + 5
    };
    if k == s.len() {
        with_rest(input, Ok((families, k)))
    } else {
        Err(add_context(fail(Rule::Eof, k, true), Rule::OpenMetrics, 0))
    }
}

/// Parse a set of metrics
///
/// This format is more likely to match prometheus scrape targets: families
/// need no sample, and no `# EOF` ends the input. What is left is always
/// empty.
pub fn prometheus(input: &str) -> (r: Result<(&str, Vec<Family>), ParseError>)
    ensures
        outcome_with_rest(input@, r) == spec_prometheus(input@),
        rest_is_suffix(input@, r),
        r matches Ok((rest, _)) ==> rest@.len() == 0,
{
    let s = chars_of(input);
    let (families, j) = match families_at(&s, 0, false) {
        Err(e) => {
            return Err(add_context(e, Rule::Prometheus, 0));
        },
        Ok(v) => v,
    };
    if j == s.len() {
        with_rest(input, Ok((families, j)))
    } else {
        Err(add_context(fail(Rule::Eof, j, true), Rule::Prometheus, 0))
    }
}

} // verus!
