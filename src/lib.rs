//! Parser for the OpenMetrics / Prometheus text exposition format.
//!
//! The grammar of every rule is stated as a spec function over the input's
//! characters; each executable rule is proved to compute exactly that.
pub mod error;
pub mod family;
pub mod label;
pub mod metric;
pub mod metric_descriptor;
pub mod number;
pub mod parser;
pub mod sample;
pub mod text;

pub use error::{Context, ParseError, Rule};
pub use family::Family;
pub use label::Label;
pub use metric::Metric;
pub use metric_descriptor::{MetricDescriptor, MetricType};
pub use number::{Decimal, Exponent, Number};
pub use sample::Sample;
