use openmetrics_parser::parser;
use openmetrics_parser::{Label, MetricDescriptor, MetricType, Number, Rule, Sample};

fn value(n: &Number) -> f64 {
    match n {
        Number::Real(_) => n.format().parse::<f64>().unwrap(),
        Number::Infinity { negative: false } => f64::INFINITY,
        Number::Infinity { negative: true } => f64::NEG_INFINITY,
        Number::NaN => f64::NAN,
    }
}

fn same_sample(expected_name: &str, expected_value: f64, expected_labels: &[(&str, &str)], s: &Sample) {
    assert_eq!(expected_name, s.name());
    assert_eq!(expected_value, value(s.number()));
    let labels: Vec<Label> = expected_labels
        .iter()
        .map(|(n, v)| Label::new(n, v.to_string()))
        .collect();
    assert_eq!(labels.as_slice(), s.labels());
}

#[test]
fn eof_marker_without_newline() {
    let (rest, families) = parser::openmetrics("# EOF").unwrap();
    assert!(rest.is_empty(), "leftover: {rest:?}");
    assert!(families.is_empty());
}

#[test]
fn eof_marker_with_newline() {
    let (rest, families) = parser::openmetrics("# EOF\n").unwrap();
    assert!(rest.is_empty(), "leftover: {rest:?}");
    assert!(families.is_empty());
}

#[test]
fn eof_marker_forms_agree() {
    assert_eq!(
        parser::openmetrics("# EOF").unwrap().1,
        parser::openmetrics("# EOF\n").unwrap().1
    );
}

#[test]
fn openmetrics() {
    let input = "# HELP up up help text\nup{job=\"prometheus\"} 1\n# EOF\n";

    let (rest, openmetrics) = parser::openmetrics(input).unwrap();

    assert_eq!(
        "up",
        openmetrics
            .first()
            .expect("parsed one family")
            .descriptors
            .first()
            .unwrap()
            .metric()
    );

    assert!(rest.is_empty(), "leftover: {rest:?}");
}

#[test]
fn openmetrics_single_sample() {
    let (rest, families) = parser::openmetrics("up{job=\"prometheus\"} 1\n# EOF\n").unwrap();
    assert!(rest.is_empty());
    assert_eq!(1, families.len());
    assert!(families[0].descriptors.is_empty());
    assert_eq!(1, families[0].samples.len());
    same_sample("up", 1.0, &[("job", "prometheus")], &families[0].samples[0]);
}

#[test]
fn family() {
    let input = "# TYPE up gauge\n# HELP up up help text\nup{job=\"prometheus\"} 1\nup{job=\"grafana\"} 0\n";

    let (rest, family) = parser::family(input).unwrap();

    assert_eq!(
        MetricDescriptor::metric_type("up", MetricType::Gauge),
        family.descriptors[0]
    );

    assert_eq!(
        MetricDescriptor::help("up", "up help text".into()),
        family.descriptors[1]
    );

    same_sample("up", 1.0, &[("job", "prometheus")], &family.samples[0]);
    same_sample("up", 0.0, &[("job", "grafana")], &family.samples[1]);

    assert!(rest.is_empty(), "leftover: {rest:?}");
}

#[test]
fn family_needs_a_sample() {
    let error = parser::family("# HELP up text\n").unwrap_err();
    assert_eq!(Rule::Family, error.rule);
    assert_eq!(15, error.offset);
    assert!(!error.fatal);
}

#[test]
fn families_split_at_descriptors() {
    let input = "a 1\na 2\n# HELP b text\nb 3\n# EOF\n";
    let (_, families) = parser::openmetrics(input).unwrap();
    assert_eq!(2, families.len());
    assert_eq!(2, families[0].samples.len());
    assert_eq!(1, families[1].descriptors.len());
    same_sample("b", 3.0, &[], &families[1].samples[0]);
}

#[test]
fn sample_without_labels() {
    let (rest, sample) = parser::sample("up 1\n").unwrap();
    same_sample("up", 1.0, &[], &sample);
    assert!(rest.is_empty());
}

#[test]
fn sample_with_label() {
    let (rest, sample) = parser::sample("up{job=\"prometheus\"} 2\n").unwrap();
    same_sample("up", 2.0, &[("job", "prometheus")], &sample);
    assert!(rest.is_empty());
}

#[test]
fn sample_with_non_ascii_label() {
    let (rest, sample) = parser::sample("up{job=\"\u{2603}\"} 1\n").unwrap();
    same_sample("up", 1.0, &[("job", "\u{2603}")], &sample);
    assert!(rest.is_empty());
}

#[test]
fn sample_keeps_what_follows() {
    let (rest, _) = parser::sample("up 1\nnext 2\n").unwrap();
    assert_eq!("next 2\n", rest);
}

#[test]
fn sample_bad_value() {
    let error = parser::sample("up x\n").unwrap_err();
    assert_eq!(Rule::Number, error.rule);
    assert_eq!(3, error.offset);
    assert_eq!(Rule::Sample, error.contexts[0].rule);
    assert_eq!(0, error.contexts[0].offset);
}

#[test]
fn sample_needs_one_space() {
    let error = parser::sample("up  1\n").unwrap_err();
    assert_eq!(Rule::Number, error.rule);
    let error = parser::sample("up\t1\n").unwrap_err();
    assert_eq!(Rule::Sample, error.rule);
    assert_eq!(2, error.offset);
}

#[test]
fn sample_without_newline_fails() {
    let error = parser::sample("up 1").unwrap_err();
    assert_eq!(Rule::Sample, error.rule);
    assert_eq!(4, error.offset);
}

#[test]
fn missing_newline_fails_everywhere() {
    assert!(parser::openmetrics("up 1").is_err());
    assert!(parser::prometheus("up 1").is_err());
}

#[test]
fn prometheus() {
    let input = "# HELP up up help text\nup{job=\"prometheus\"} 1\n";

    let (rest, prometheus) = parser::prometheus(input).unwrap();

    assert!(rest.is_empty(), "leftover: {rest:?}");

    assert_eq!(
        "up",
        prometheus
            .first()
            .expect("parsed one family")
            .descriptors
            .first()
            .unwrap()
            .metric()
    );
}

#[test]
fn prometheus_family_without_samples() {
    let (_, families) = parser::prometheus("# HELP a x\n# TYPE a counter\n").unwrap();
    assert_eq!(1, families.len());
    assert_eq!(2, families[0].descriptors.len());
    assert!(families[0].samples.is_empty());
}

#[test]
fn prometheus_empty_input() {
    let (rest, families) = parser::prometheus("").unwrap();
    assert!(rest.is_empty());
    assert!(families.is_empty());
}

#[test]
fn prometheus_rejects_eof_marker() {
    let error = parser::prometheus("up 1\n# EOF\n").unwrap_err();
    assert_eq!(Rule::Eof, error.rule);
    assert_eq!(5, error.offset);
    assert!(error.fatal);
    assert_eq!(Rule::Prometheus, error.contexts[0].rule);
}

#[test]
fn openmetrics_needs_eof_marker() {
    let error = parser::openmetrics("up 1\n").unwrap_err();
    assert_eq!(Rule::Eof, error.rule);
    assert_eq!(5, error.offset);
    assert!(!error.fatal);
    assert_eq!(Rule::OpenMetrics, error.contexts[0].rule);
}

#[test]
fn openmetrics_text_after_marker() {
    let error = parser::openmetrics("# EOF\nup 1\n").unwrap_err();
    assert_eq!(Rule::Eof, error.rule);
    assert_eq!(6, error.offset);
    assert!(error.fatal);
    let error = parser::openmetrics("# EOF\n\n").unwrap_err();
    assert_eq!(6, error.offset);
}

#[test]
fn openmetrics_bad_descriptor_is_fatal() {
    let error = parser::openmetrics("# HELP 0up text\nup 1\n# EOF\n").unwrap_err();
    assert_eq!(Rule::MetricName, error.rule);
    assert_eq!(7, error.offset);
    assert!(error.fatal);
    let rules: Vec<Rule> = error.contexts.iter().map(|c| c.rule).collect();
    assert_eq!(
        vec![Rule::MetricDescriptor, Rule::Family, Rule::OpenMetrics],
        rules
    );
    assert_eq!("metric name", error.rule.name());
}

#[test]
fn samples_keep_input_order() {
    let input = "# TYPE up gauge\n# HELP up up help text\nup{job=\"prometheus\"} 1\nup{job=\"grafana\"} 0\n";
    let (_, families) = parser::prometheus(input).unwrap();
    assert_eq!(1, families.len());
    let values: Vec<f64> = families[0].samples.iter().map(|s| value(s.number())).collect();
    assert_eq!(vec![1.0, 0.0], values);
}

#[test]
fn rule_names() {
    assert_eq!("number", Rule::Number.name());
    assert_eq!("metric descriptor", Rule::MetricDescriptor.name());
    assert_eq!("eof", Rule::Eof.name());
    assert_eq!("openmetrics", Rule::OpenMetrics.name());
}
