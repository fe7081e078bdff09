use openmetrics_parser::parser;
use openmetrics_parser::{MetricDescriptor, MetricType, Rule};

#[test]
fn help_descriptor() {
    let input = "HELP adsb_aircraft_mlat_recent Number of aircraft observed with a position determined by multilateration in the last minute";

    let (rest, descriptor) = parser::help_descriptor(input).unwrap();

    let expected = MetricDescriptor::help(
        "adsb_aircraft_mlat_recent",
        "Number of aircraft observed with a position determined by multilateration in the last minute".into(),
    );

    assert_eq!(expected, descriptor);

    assert!(rest.is_empty());
}

#[test]
fn metric_descriptor_help() {
    let cases = [
        (
            "# HELP up Job is scrapeable\n",
            MetricDescriptor::help("up", "Job is scrapeable".into()),
        ),
        (
            "# HELP adsb_aircraft_mlat_recent Number of aircraft observed with a position determined by multilateration in the last minute\n",
            MetricDescriptor::help("adsb_aircraft_mlat_recent", "Number of aircraft observed with a position determined by multilateration in the last minute".into()),
        ),
    ];
    for (input, expected) in cases {
        let (rest, descriptor) = parser::metric_descriptor(input).unwrap();
        assert_eq!(expected, descriptor);
        assert!(rest.is_empty(), "leftover: {rest:?}");
    }
}

#[test]
fn metric_descriptor_type() {
    let cases = [
        ("counter", MetricType::Counter),
        ("gauge", MetricType::Gauge),
        ("gaugehistogram", MetricType::Gaugehistogram),
        ("histogram", MetricType::Histogram),
        ("info", MetricType::Info),
        ("stateset", MetricType::Stateset),
        ("summary", MetricType::Summary),
        ("junk", MetricType::Unknown("junk".into())),
        ("counterx", MetricType::Unknown("counterx".into())),
    ];
    for (input_type, expected) in cases {
        let expected = MetricDescriptor::metric_type("metric", expected);
        let input = format!("# TYPE metric {input_type}\n");
        let (rest, descriptor) = parser::metric_descriptor(&input).unwrap();
        assert_eq!(expected, descriptor);
        assert!(rest.is_empty(), "leftover: {rest:?}");
    }
}

#[test]
fn metric_descriptor_unit() {
    let expected = MetricDescriptor::unit("metric", "unit");
    let input = "# UNIT metric unit\n";

    let (rest, descriptor) = parser::metric_descriptor(input).unwrap();

    assert_eq!(expected, descriptor);

    assert!(rest.is_empty(), "leftover: {rest:?}");
}

#[test]
fn type_and_unit_descriptors_alone() {
    let (rest, d) = parser::type_descriptor("TYPE up gauge\n").unwrap();
    assert_eq!(MetricDescriptor::metric_type("up", MetricType::Gauge), d);
    assert_eq!("\n", rest);
    let (rest, d) = parser::unit_descriptor("UNIT up seconds").unwrap();
    assert_eq!(MetricDescriptor::unit("up", "seconds"), d);
    assert!(rest.is_empty());
    assert!(parser::unit_descriptor("HELP up x").is_err());
}

#[test]
fn help_text_escapes() {
    let cases = [
        ("hello world!", "hello world!"),
        ("hello \"world!\"", "hello \"world!\""),
        ("\\n", "\n"),
        ("\\\\", "\\"),
        ("\\\"", "\""),
        ("\\x", "x"),
    ];
    for (text, expected) in cases {
        let input = format!("# HELP m {text}\n");
        let (_, d) = parser::metric_descriptor(&input).unwrap();
        assert_eq!(MetricDescriptor::help("m", expected.into()), d);
    }
}

#[test]
fn help_may_be_empty() {
    let (_, d) = parser::metric_descriptor("# HELP m \n").unwrap();
    assert_eq!(MetricDescriptor::help("m", String::new()), d);
}

#[test]
fn descriptor_trailing_backslash() {
    let error = parser::metric_descriptor("# HELP m text\\").unwrap_err();
    assert_eq!(Rule::MetricDescriptor, error.rule);
    assert_eq!(13, error.offset);
    assert!(error.fatal);
}

#[test]
fn descriptor_empty_type() {
    let error = parser::metric_descriptor("# TYPE m \n").unwrap_err();
    assert_eq!(Rule::MetricType, error.rule);
    assert_eq!(9, error.offset);
    assert!(error.fatal);
    assert_eq!(Rule::MetricDescriptor, error.contexts[0].rule);
    assert_eq!(0, error.contexts[0].offset);
}

#[test]
fn descriptor_unit_with_space_is_fatal() {
    let error = parser::metric_descriptor("# UNIT m sec onds\n").unwrap_err();
    assert_eq!(Rule::MetricDescriptor, error.rule);
    assert_eq!(12, error.offset);
    assert!(error.fatal);
}

#[test]
fn descriptor_without_keyword_is_recoverable() {
    let error = parser::metric_descriptor("# EOF\n").unwrap_err();
    assert_eq!(Rule::MetricDescriptor, error.rule);
    assert_eq!(0, error.offset);
    assert!(!error.fatal);
}

#[test]
fn metric_type_text() {
    assert_eq!("counter", MetricType::Counter.to_text());
    assert_eq!("gaugehistogram", MetricType::Gaugehistogram.to_text());
    assert_eq!("stateset", MetricType::Stateset.to_text());
    assert_eq!("raw", MetricType::Unknown("raw".into()).to_text());
}

#[test]
fn descriptor_metric_name() {
    assert_eq!("a", MetricDescriptor::unit("a", "b").metric());
    assert_eq!("c", MetricDescriptor::metric_type("c", MetricType::Info).metric());
}
