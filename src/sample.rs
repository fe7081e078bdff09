use crate::label::{Label, SpecLabel};
use crate::number::{Number, SpecNumber};
use vstd::prelude::*;

verus! {

/// A metric sample
#[derive(Clone, Debug, PartialEq)]
pub struct Sample {
    name: String,
    labels: Vec<Label>,
    number: Number,
}

/// The model of a `Sample`.
pub struct SpecSample {
    pub name: Seq<char>,
    pub labels: Seq<SpecLabel>,
    pub number: SpecNumber,
}

impl View for Sample {
    type V = SpecSample;

    closed spec fn view(&self) -> SpecSample {
        SpecSample { name: self.name@, labels: self.labels.deep_view(), number: self.number@ }
    }
}

impl DeepView for Sample {
    type V = SpecSample;

    open spec fn deep_view(&self) -> SpecSample {
        self@
    }
}

impl Sample {
    /// Create a `Sample` without labels
    pub fn new(name: &str, number: Number) -> (r: Sample)
        ensures
            r@ == (SpecSample { name: name@, labels: Seq::empty(), number: number@ }),
    {
        let labels: Vec<Label> = Vec::new();
        let r = Sample { name: name.to_owned(), labels, number };
        assert(r@.labels =~= Seq::<SpecLabel>::empty());
        r
    }

    /// Create a `Sample` with labels
    pub fn with_labels(name: &str, number: Number, labels: Vec<Label>) -> (r: Sample)
        ensures
            r@ == (SpecSample { name: name@, labels: labels.deep_view(), number: number@ }),
    {
        Sample { name: name.to_owned(), labels, number }
    }

    /// Add a label to a `Sample`
    pub fn add_label(self, name: &str, value: &str) -> (r: Sample)
        ensures
            r@ == (SpecSample {
                labels: self@.labels.push(SpecLabel { name: name@, value: value@ }),
                ..self@
            }),
    {
        let mut r = self;
        let label = Label::new(name, value.to_owned());
        r.labels.push(label);
        assert(r@.labels =~= self@.labels.push(label@));
        r
    }

    /// [`Label`]s for a `Sample`
    pub fn labels(&self) -> (r: &[Label])
        ensures
            r.deep_view() == self@.labels,
    {
        self.labels.as_slice()
    }

    /// The metric name
    pub fn name(&self) -> (r: &str)
        ensures
            r@ == self@.name,
    {
        self.name.as_str()
    }

    /// The metric value
    pub fn number(&self) -> (r: &Number)
        ensures
            r@ == self@.number,
    {
        &self.number
    }
}

} // verus!
