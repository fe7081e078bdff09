use openmetrics_parser::parser;
use openmetrics_parser::Rule;

#[test]
fn metric_name_error() {
    let input = "0";

    let error = parser::metric_name(input).unwrap_err();

    assert_eq!(0, error.offset);
    assert_eq!("metric name", error.rule.name());
}

#[test]
fn metric_name_error_on_leading_digit() {
    let error = parser::metric_name("0foo").unwrap_err();
    assert_eq!(Rule::MetricName, error.rule);
    assert_eq!(0, error.offset);
    assert!(error.contexts.is_empty());
}

#[test]
fn metric_name_ok() {
    let cases = [
        ("A0", "", "A0"),
        ("__name__", "", "__name__"),
        ("a0", "", "a0"),
        ("name_0_more", "", "name_0_more"),
        ("rule:name", "", "rule:name"),
        ("up", "", "up"),
        ("up{", "{", "up"),
    ];
    for (input, expected_rest, expected_parsed) in cases {
        let (rest, parsed) = parser::metric_name(input).unwrap();
        assert_eq!(expected_parsed, parsed);
        assert_eq!(expected_rest, rest);
    }
}

#[test]
fn metric_name_chars() {
    assert!(parser::is_metric_name_initial_char(':'));
    assert!(parser::is_metric_name_initial_char('a'));
    assert!(!parser::is_metric_name_initial_char('0'));
    assert!(parser::is_metric_name_char('0'));
    assert!(parser::is_metric_name_char('_'));
    assert!(!parser::is_metric_name_char('{'));
    assert!(!parser::is_metric_name_char('-'));
}
