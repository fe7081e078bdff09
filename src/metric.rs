use crate::label::{Label, SpecLabel};
use vstd::prelude::*;

verus! {

/// A metric name with its labels
#[derive(Clone, Debug, PartialEq)]
pub struct Metric {
    name: String,
    labels: Vec<Label>,
}

/// The model of a `Metric`.
pub struct SpecMetric {
    pub name: Seq<char>,
    pub labels: Seq<SpecLabel>,
}

impl View for Metric {
    type V = SpecMetric;

    closed spec fn view(&self) -> SpecMetric {
        SpecMetric { name: self.name@, labels: self.labels.deep_view() }
    }
}

impl Metric {
    /// Create a `Metric` without labels
    pub fn new(name: &str) -> (r: Metric)
        ensures
            r@ == (SpecMetric { name: name@, labels: Seq::empty() }),
    {
        let labels: Vec<Label> = Vec::new();
        let r = Metric { name: name.to_owned(), labels };
        assert(r@.labels =~= Seq::<SpecLabel>::empty());
        r
    }

    /// Create a `Metric` with labels
    pub fn with_labels(name: &str, labels: Vec<Label>) -> (r: Metric)
        ensures
            r@ == (SpecMetric { name: name@, labels: labels.deep_view() }),
    {
        Metric { name: name.to_owned(), labels }
    }

    /// Add a label to a `Metric`
    pub fn add_label(self, name: &str, value: &str) -> (r: Metric)
        ensures
            r@ == (SpecMetric {
                name: self@.name,
                labels: self@.labels.push(SpecLabel { name: name@, value: value@ }),
            }),
    {
        let mut r = self;
        let label = Label::new(name, value.to_owned());
        r.labels.push(label);
        assert(r@.labels =~= self@.labels.push(label@));
        r
    }
}

} // verus!
