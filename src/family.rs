use crate::metric_descriptor::{MetricDescriptor, SpecDescriptor};
use crate::sample::{Sample, SpecSample};
use vstd::prelude::*;

verus! {

/// A metric's descriptors followed by its samples
#[derive(Clone, Debug, PartialEq)]
pub struct Family {
    pub descriptors: Vec<MetricDescriptor>,
    pub samples: Vec<Sample>,
}

/// The model of a `Family`.
pub struct SpecFamily {
    pub descriptors: Seq<SpecDescriptor>,
    pub samples: Seq<SpecSample>,
}

impl View for Family {
    type V = SpecFamily;

    open spec fn view(&self) -> SpecFamily {
        SpecFamily {
            descriptors: self.descriptors.deep_view(),
            samples: self.samples.deep_view(),
        }
    }
}

impl DeepView for Family {
    type V = SpecFamily;

    open spec fn deep_view(&self) -> SpecFamily {
        self@
    }
}

impl Family {
    /// Create a `Family`
    pub fn new(descriptors: Vec<MetricDescriptor>, samples: Vec<Sample>) -> (r: Family)
        ensures
            r@ == (SpecFamily {
                descriptors: descriptors.deep_view(),
                samples: samples.deep_view(),
            }),
    {
        Family { descriptors, samples }
    }
}

} // verus!
