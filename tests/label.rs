use openmetrics_parser::parser;
use openmetrics_parser::{Label, Rule};

#[test]
fn label_plain() {
    let (rest, label) = parser::label("job=\"prometheus\"").unwrap();
    assert_eq!(Label::new("job", "prometheus".into()), label);
    assert!(rest.is_empty());
}

#[test]
fn label_non_ascii() {
    let (rest, label) = parser::label("job=\"\u{2603}\"").unwrap();
    assert_eq!(Label::new("job", "\u{2603}".into()), label);
    assert!(rest.is_empty());
}

#[test]
fn labels_two() {
    let (rest, labels) = parser::labels("{job=\"prometheus\",instance=\"scrape.example\"}").unwrap();
    assert_eq!(
        vec![
            Label::new("job", "prometheus".into()),
            Label::new("instance", "scrape.example".into())
        ],
        labels
    );
    assert!(rest.is_empty());
}

#[test]
fn labels_empty_block() {
    let (rest, labels) = parser::labels("{}").unwrap();
    assert!(labels.is_empty());
    assert!(rest.is_empty());
}

#[test]
fn labels_keep_duplicates() {
    let (_, labels) = parser::labels("{a=\"1\",a=\"2\"}").unwrap();
    assert_eq!(
        vec![Label::new("a", "1".into()), Label::new("a", "2".into())],
        labels
    );
}

#[test]
fn labels_trailing_comma() {
    let error = parser::labels("{a=\"1\",}").unwrap_err();
    assert_eq!(Rule::MetricLabel, error.rule);
    assert_eq!(7, error.offset);
}

#[test]
fn labels_unclosed() {
    let error = parser::labels("{a=\"1\" b").unwrap_err();
    assert_eq!(Rule::Labels, error.rule);
    assert_eq!(6, error.offset);
}

#[test]
fn label_missing_equals() {
    let error = parser::label("a:\"1\"").unwrap_err();
    assert_eq!(Rule::Label, error.rule);
    assert_eq!(1, error.offset);
}

#[test]
fn label_unterminated_value() {
    let error = parser::label("a=\"1").unwrap_err();
    assert_eq!(Rule::LabelString, error.rule);
    assert_eq!(4, error.offset);
    let error = parser::label("a=\"x\\").unwrap_err();
    assert_eq!(Rule::LabelString, error.rule);
    assert_eq!(4, error.offset);
    let error = parser::label("a=1").unwrap_err();
    assert_eq!(Rule::LabelString, error.rule);
    assert_eq!(2, error.offset);
}

#[test]
fn label_value_escapes() {
    let (_, label) = parser::label("a=\"\\n\"").unwrap();
    assert_eq!("\n", label.value);
    let (_, label) = parser::label("a=\"\\q\"").unwrap();
    assert_eq!("q", label.value);
    let (_, label) = parser::label("a=\"\\\\\"").unwrap();
    assert_eq!("\\", label.value);
    let (_, label) = parser::label("a=\"\\\"\"").unwrap();
    assert_eq!("\"", label.value);
    let (_, label) = parser::label("a=\"hello world!\"").unwrap();
    assert_eq!("hello world!", label.value);
}

#[test]
fn label_value_stops_at_newline() {
    let error = parser::label("a=\"x\ny\"").unwrap_err();
    assert_eq!(Rule::LabelString, error.rule);
    assert_eq!(4, error.offset);
}

#[test]
fn metric_label_error() {
    let input = "0";

    let error = parser::metric_label(input).unwrap_err();

    assert_eq!(0, error.offset);
    assert_eq!("metric label", error.rule.name());
}

#[test]
fn metric_label_ok() {
    let cases = [
        ("A0", "", "A0"),
        ("__name__", "", "__name__"),
        ("a0", "", "a0"),
        ("name_0_more", "", "name_0_more"),
        ("rule:name", ":name", "rule"),
        ("up", "", "up"),
        ("up{", "{", "up"),
    ];
    for (input, expected_rest, expected_parsed) in cases {
        let (rest, parsed) = parser::metric_label(input).unwrap();
        assert_eq!(expected_parsed, parsed);
        assert_eq!(expected_rest, rest);
    }
}
