use crate::error::{
    add_context, fail, failure, in_context, outcome_of, Outcome, ParseError, Rule,
};
use crate::label::{Label, SpecLabel};
use crate::text::chars_of;
use crate::text::string_of;
use super::metric_name::{is_ascii_alpha, lemma_run_end, run_end, run_end_at, Class};
use super::string::{label_string_at, lemma_scan_text_end, spec_label_string};
use super::{lemma_prepend_prepend, outcome_with_rest, prepend, rest_is_suffix, with_rest};
use vstd::prelude::*;

verus! {

pub open spec fn is_label_initial(c: char) -> bool {
    is_ascii_alpha(c) || c == '_'
}

/// Matches a label name `[a-zA-Z_][a-zA-Z0-9_]*`.
pub open spec fn spec_metric_label(s: Seq<char>, i: int) -> Outcome<Seq<char>> {
    if 0 <= i < s.len() && is_label_initial(s[i]) {
        let j = run_end(s, i, Class::LabelName);
        Ok((s.subrange(i, j), j))
    } else {
        failure(Rule::MetricLabel, i, false)
    }
}

/// `label := label-name "=" label-value`
pub open spec fn spec_label(s: Seq<char>, i: int) -> Outcome<SpecLabel> {
    match spec_metric_label(s, i) {
        Err(e) => Err(in_context(e, Rule::Label, i)),
        Ok((name, j)) => if 0 <= j < s.len() && s[j] == '=' {
            match spec_label_string(s, j + 1) {
                Ok((value, k)) => Ok((SpecLabel { name, value }, k)),
                Err(e) => Err(in_context(e, Rule::Label, i)),
            }
        } else {
            failure(Rule::Label, j, false)
        },
    }
}

pub proof fn lemma_label_advances(s: Seq<char>, i: int)
    requires
        0 <= i <= s.len(),
    ensures
        spec_label(s, i) matches Ok((_, k)) ==> i < k <= s.len(),
{
    if 0 <= i < s.len() && is_label_initial(s[i]) {
        lemma_run_end(s, i, Class::LabelName);
        let j = run_end(s, i, Class::LabelName);
        if 0 <= j < s.len() && s[j] == '=' && j + 1 < s.len() {
            lemma_scan_text_end(s, j + 2, true);
        }
    }
}

/// The labels of a block from `i` on, after its `{` at `start`:
/// `label ("," label)* "}"`.
pub open spec fn spec_label_list(s: Seq<char>, start: int, i: int) -> Outcome<Seq<SpecLabel>>
    decreases s.len() - i,
{
    if 0 <= i <= s.len() {
        match spec_label(s, i) {
            Err(e) => Err(in_context(e, Rule::Labels, start)),
            Ok((l, j)) => {
                proof {
                    lemma_label_advances(s, i);
                }
                if j < s.len() && s[j] == ',' {
                    prepend(seq![l], spec_label_list(s, start, j + 1))
                } else if j < s.len() && s[j] == '}' {
                    Ok((seq![l], j + 1))
                } else {
                    failure(Rule::Labels, j, false)
                }
            },
        }
    } else {
        failure(Rule::Labels, i, false)
    }
}

/// `labels := "{" (label ("," label)*)? "}"`
pub open spec fn spec_labels(s: Seq<char>, i: int) -> Outcome<Seq<SpecLabel>> {
    if 0 <= i < s.len() && s[i] == '{' {
        if i + 1 < s.len() && s[i + 1] == '}' {
            Ok((Seq::empty(), i + 2))
        } else {
            spec_label_list(s, i, i + 1)
        }
    } else {
        failure(Rule::Labels, i, false)
    }
}

pub proof fn lemma_labels_end(s: Seq<char>, i: int)
    requires
        0 <= i <= s.len(),
    ensures
        spec_labels(s, i) matches Ok((_, k)) ==> i < k <= s.len(),
{
    if 0 <= i < s.len() && s[i] == '{' && !(i + 1 < s.len() && s[i + 1] == '}') {
        lemma_label_list_end(s, i, i + 1);
    }
}

proof fn lemma_label_list_end(s: Seq<char>, start: int, i: int)
    requires
        0 <= i <= s.len(),
    ensures
        spec_label_list(s, start, i) matches Ok((_, k)) ==> i < k <= s.len(),
    decreases s.len() - i,
{
    lemma_label_advances(s, i);
    if let Ok((l, j)) = spec_label(s, i) {
        if j < s.len() && s[j] == ',' {
            lemma_label_list_end(s, start, j + 1);
        }
    }
}

pub fn metric_label_at(s: &Vec<char>, i: usize) -> (r: Result<(String, usize), ParseError>)
    requires
        i <= s@.len(),
    ensures
        outcome_of(r) == spec_metric_label(s@, i as int),
{
    if i < s.len() && (('a' <= s[i] && s[i] <= 'z') || ('A' <= s[i] && s[i] <= 'Z') || s[i]
        == '_') {
        let j = run_end_at(s, i, Class::LabelName);
        Ok((string_of(s, i, j), j))
    } else {
        Err(fail(Rule::MetricLabel, i, false))
    }
}

pub fn label_at(s: &Vec<char>, i: usize) -> (r: Result<(Label, usize), ParseError>)
    requires
        i <= s@.len(),
    ensures
        outcome_of(r) == spec_label(s@, i as int),
        r matches Ok((_, k)) ==> i < k <= s@.len(),
{
    proof {
        lemma_label_advances(s@, i as int);
    }
    match metric_label_at(s, i) {
        Err(e) => Err(add_context(e, Rule::Label, i)),
        Ok((name, j)) => {
            proof {
                lemma_run_end(s@, i as int, Class::LabelName);
            }
            if j < s.len() && s[j] == '=' {
                match label_string_at(s, j + 1) {
                    Ok((value, k)) => Ok((Label { name, value }, k)),
                    Err(e) => Err(add_context(e, Rule::Label, i)),
                }
            } else {
                Err(fail(Rule::Label, j, false))
            }
        },
    }
}

pub fn labels_at(s: &Vec<char>, i: usize) -> (r: Result<(Vec<Label>, usize), ParseError>)
    requires
        i <= s@.len(),
    ensures
        outcome_of(r) == spec_labels(s@, i as int),
        r matches Ok((_, k)) ==> i < k <= s@.len(),
{
    proof {
        lemma_labels_end(s@, i as int);
    }
    if !(i < s.len() && s[i] == '{') {
        return Err(fail(Rule::Labels, i, false));
    }
    let mut out: Vec<Label> = Vec::new();
    if i + 1 < s.len() && s[i + 1] == '}' {
        assert(out.deep_view() =~= Seq::<SpecLabel>::empty());
        return Ok((out, i + 2));
    }
    let ghost total = spec_labels(s@, i as int);
    let mut k = i + 1;
    assert(prepend(out.deep_view(), spec_label_list(s@, i as int, k as int)) == total) by {
        if let Ok((ys, m)) = total {
            assert(out.deep_view() + ys =~= ys);
        }
    }
    loop
        invariant
            i < k <= s@.len(),
            total == spec_labels(s@, i as int),
            prepend(out.deep_view(), spec_label_list(s@, i as int, k as int)) == total,
        decreases s@.len() - k,
    {
        match label_at(s, k) {
            Err(e) => {
                return Err(add_context(e, Rule::Labels, i));
            },
            Ok((l, j)) => {
                let ghost before = out.deep_view();
                let ghost lv = l@;
                out.push(l);
                assert(out.deep_view() =~= before + seq![lv]);
                if j < s.len() && s[j] == ',' {
                    proof {
                        lemma_prepend_prepend(before, seq![lv], spec_label_list(s@, i as int, j + 1));
                    }
                    k = j + 1;
                } else if j < s.len() && s[j] == '}' {
                    return Ok((out, j + 1));
                } else {
                    return Err(fail(Rule::Labels, j, false));
                }
            },
        }
    }
}

/// Parses a label name: `[a-zA-Z_][a-zA-Z0-9_]*`
pub fn metric_label(input: &str) -> (r: Result<(&str, String), ParseError>)
    ensures
        outcome_with_rest(input@, r) == spec_metric_label(input@, 0),
        rest_is_suffix(input@, r),
{
    let s = chars_of(input);
    let r = metric_label_at(&s, 0);
    proof {
        lemma_run_end(s@, 0, Class::LabelName);
    }
    with_rest(input, r)
}

/// Parses one label, `name="value"`.
pub fn label(input: &str) -> (r: Result<(&str, Label), ParseError>)
    ensures
        outcome_with_rest(input@, r) == spec_label(input@, 0),
        rest_is_suffix(input@, r),
{
    let s = chars_of(input);
    let r = label_at(&s, 0);
    with_rest(input, r)
}

/// Parses a block of labels, `{name="value",...}`.
pub fn labels(input: &str) -> (r: Result<(&str, Vec<Label>), ParseError>)
    ensures
        outcome_with_rest(input@, r) == spec_labels(input@, 0),
        rest_is_suffix(input@, r),
{
    let s = chars_of(input);
    let r = labels_at(&s, 0);
    with_rest(input, r)
}

} // verus!
