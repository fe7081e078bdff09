use vstd::prelude::*;

verus! {

/// A label of a sample: a name and its decoded value.
#[derive(Clone, Debug, PartialEq)]
pub struct Label {
    pub name: String,
    pub value: String,
}

/// The model of a `Label`.
pub struct SpecLabel {
    pub name: Seq<char>,
    pub value: Seq<char>,
}

impl View for Label {
    type V = SpecLabel;

    open spec fn view(&self) -> SpecLabel {
        SpecLabel { name: self.name@, value: self.value@ }
    }
}

impl DeepView for Label {
    type V = SpecLabel;

    open spec fn deep_view(&self) -> SpecLabel {
        self@
    }
}

impl Label {
    /// Create a `Label`
    pub fn new(name: &str, value: String) -> (r: Label)
        ensures
            r@ == (SpecLabel { name: name@, value: value@ }),
    {
        Label { name: name.to_owned(), value }
    }
}

} // verus!
