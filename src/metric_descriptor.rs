use vstd::prelude::*;

verus! {

/// The type of the metric
#[derive(Clone, Debug, PartialEq)]
pub enum MetricType {
    /// A counter measures discrete events
    Counter,
    /// A gauge measures a current value
    Gauge,
    /// A gauge histogram measures current distributions
    Gaugehistogram,
    /// A distribution of discrete events
    Histogram,
    /// Exposes textual information through labels
    Info,
    /// A series of related boolean values
    Stateset,
    /// A quantile summary of discrete events
    Summary,
    /// Unknown type, with the text that named it
    Unknown(String),
}

/// The model of a `MetricType`.
pub enum SpecMetricType {
    Counter,
    Gauge,
    Gaugehistogram,
    Histogram,
    Info,
    Stateset,
    Summary,
    Unknown(Seq<char>),
}

impl View for MetricType {
    type V = SpecMetricType;

    open spec fn view(&self) -> SpecMetricType {
        match self {
            MetricType::Counter => SpecMetricType::Counter,
            MetricType::Gauge => SpecMetricType::Gauge,
            MetricType::Gaugehistogram => SpecMetricType::Gaugehistogram,
            MetricType::Histogram => SpecMetricType::Histogram,
            MetricType::Info => SpecMetricType::Info,
            MetricType::Stateset => SpecMetricType::Stateset,
            MetricType::Summary => SpecMetricType::Summary,
            MetricType::Unknown(t) => SpecMetricType::Unknown(t@),
        }
    }
}

impl DeepView for MetricType {
    type V = SpecMetricType;

    open spec fn deep_view(&self) -> SpecMetricType {
        self@
    }
}

/// How a metric type is written: the lower-case keyword, or the text of an
/// unknown type.
pub open spec fn type_text(t: SpecMetricType) -> Seq<char> {
    match t {
        SpecMetricType::Counter => "counter"@,
        SpecMetricType::Gauge => "gauge"@,
        SpecMetricType::Gaugehistogram => "gaugehistogram"@,
        SpecMetricType::Histogram => "histogram"@,
        SpecMetricType::Info => "info"@,
        SpecMetricType::Stateset => "stateset"@,
        SpecMetricType::Summary => "summary"@,
        SpecMetricType::Unknown(text) => text,
    }
}

impl MetricType {
    /// The text of this type: its keyword, or the text of an unknown type.
    pub fn to_text(&self) -> (r: String)
        ensures
            r@ == type_text(self@),
    {
        match self {
            MetricType::Counter => "counter".to_owned(),
            MetricType::Gauge => "gauge".to_owned(),
            MetricType::Gaugehistogram => "gaugehistogram".to_owned(),
            MetricType::Histogram => "histogram".to_owned(),
            MetricType::Info => "info".to_owned(),
            MetricType::Stateset => "stateset".to_owned(),
            MetricType::Summary => "summary".to_owned(),
            MetricType::Unknown(text) => text.clone(),
        }
    }
}

/// The HELP, TYPE, and UNIT of a metric
#[derive(Clone, Debug, PartialEq)]
pub enum MetricDescriptor {
    /// The `MetricType`
    Type { metric: String, metric_type: MetricType },
    /// The metric description
    Help { metric: String, help: String },
    /// The metric unit
    Unit { metric: String, unit: String },
}

/// The model of a `MetricDescriptor`.
pub enum SpecDescriptor {
    Type { metric: Seq<char>, metric_type: SpecMetricType },
    Help { metric: Seq<char>, help: Seq<char> },
    Unit { metric: Seq<char>, unit: Seq<char> },
}

impl SpecDescriptor {
    pub open spec fn metric(self) -> Seq<char> {
        match self {
            SpecDescriptor::Type { metric, .. } => metric,
            SpecDescriptor::Help { metric, .. } => metric,
            SpecDescriptor::Unit { metric, .. } => metric,
        }
    }
}

impl View for MetricDescriptor {
    type V = SpecDescriptor;

    open spec fn view(&self) -> SpecDescriptor {
        match self {
            MetricDescriptor::Type { metric, metric_type } => SpecDescriptor::Type {
                metric: metric@,
                metric_type: metric_type@,
            },
            MetricDescriptor::Help { metric, help } => SpecDescriptor::Help {
                metric: metric@,
                help: help@,
            },
            MetricDescriptor::Unit { metric, unit } => SpecDescriptor::Unit {
                metric: metric@,
                unit: unit@,
            },
        }
    }
}

impl DeepView for MetricDescriptor {
    type V = SpecDescriptor;

    open spec fn deep_view(&self) -> SpecDescriptor {
        self@
    }
}

impl MetricDescriptor {
    /// Create a HELP descriptor
    pub fn help(metric: &str, help: String) -> (r: MetricDescriptor)
        ensures
            r@ == (SpecDescriptor::Help { metric: metric@, help: help@ }),
    {
        MetricDescriptor::Help { metric: metric.to_owned(), help }
    }

    /// Create a TYPE descriptor
    pub fn metric_type(metric: &str, metric_type: MetricType) -> (r: MetricDescriptor)
        ensures
            r@ == (SpecDescriptor::Type { metric: metric@, metric_type: metric_type@ }),
    {
        MetricDescriptor::Type { metric: metric.to_owned(), metric_type }
    }

    /// Create a UNIT descriptor
    pub fn unit(metric: &str, unit: &str) -> (r: MetricDescriptor)
        ensures
            r@ == (SpecDescriptor::Unit { metric: metric@, unit: unit@ }),
    {
        MetricDescriptor::Unit { metric: metric.to_owned(), unit: unit.to_owned() }
    }

    /// The metric name
    pub fn metric(&self) -> (r: &str)
        ensures
            r@ == self@.metric(),
    {
        match self {
            MetricDescriptor::Type { metric, .. } => metric.as_str(),
            MetricDescriptor::Help { metric, .. } => metric.as_str(),
            MetricDescriptor::Unit { metric, .. } => metric.as_str(),
        }
    }
}

} // verus!
