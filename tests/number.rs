use openmetrics_parser::parser;
use openmetrics_parser::{Decimal, Exponent, Number, Rule};

fn float_of(n: &Number) -> f64 {
    match n {
        Number::Real(_) => n.format().parse::<f64>().unwrap(),
        Number::Infinity { negative: false } => f64::INFINITY,
        Number::Infinity { negative: true } => f64::NEG_INFINITY,
        Number::NaN => f64::NAN,
    }
}

fn parse_all(input: &str) -> Number {
    let (rest, n) = parser::number(input).unwrap();
    assert!(rest.is_empty(), "unparsed input for {input}");
    n
}

#[test]
fn infinity() {
    let cases = [
        ("+Inf", f64::INFINITY),
        ("+Infinity", f64::INFINITY),
        ("-InFiniTY", -f64::INFINITY),
        ("-Inf", -f64::INFINITY),
        ("-Infinity", -f64::INFINITY),
        ("InFinItY", f64::INFINITY),
        ("InFiNiTy", f64::INFINITY),
        ("Inf", f64::INFINITY),
        ("inF", f64::INFINITY),
        ("Infinity", f64::INFINITY),
        ("inf", f64::INFINITY),
        ("infinity", f64::INFINITY),
        ("-INF", -f64::INFINITY),
    ];
    for (input, expected) in cases {
        assert_eq!(expected, float_of(&parse_all(input)), "input: {input}");
    }
}

#[test]
fn nan() {
    for input in ["nan", "NaN", "nAN"] {
        let n = parse_all(input);
        assert_eq!(Number::NaN, n);
        assert!(float_of(&n).is_nan());
    }
}

#[test]
fn number() {
    let cases = [
        ("+1", 1.0),
        ("+1.", 1.0),
        ("+1.2", 1.2),
        ("+20", 20.0),
        ("+345", 345.0),
        ("-1", -1.0),
        ("-1.", -1.0),
        ("-1.2", -1.2),
        ("-20", -20.0),
        ("-345", -345.0),
        ("1", 1.0),
        ("1.", 1.0),
        ("1.2", 1.2),
        ("20", 20.0),
        ("345", 345.0),
        ("3e5", 300000.0),
        ("3e-5", 0.00003),
        (".456", 0.456),
        (".1e-2", 0.001),
        ("0.567", 0.567),
        ("0.5e-8", 0.000000005),
    ];
    for (input, expected) in cases {
        let result = float_of(&parse_all(input));
        assert!(
            ((expected - result) / expected).abs() <= 0.01,
            "input: {input} result: {result}"
        );
    }
}

#[test]
fn signed_zero() {
    let n = parse_all("-0");
    assert!(float_of(&n).is_sign_negative());
    let n = parse_all("+0");
    assert!(float_of(&n).is_sign_positive());
}

#[test]
fn decimal_parts() {
    let n = parse_all("-12.50E+3");
    assert_eq!(
        Number::Real(Decimal {
            negative: true,
            integer: "12".into(),
            fraction: Some("50".into()),
            exponent: Some(Exponent { negative: false, digits: "3".into() }),
        }),
        n
    );
    assert_eq!("-12.50e3", n.format());
}

#[test]
fn exponent_without_digits_is_not_read() {
    let (rest, n) = parser::number("1e").unwrap();
    assert_eq!("e", rest);
    assert_eq!(1.0, float_of(&n));
    let (rest, _) = parser::number("2E+x").unwrap();
    assert_eq!("E+x", rest);
}

#[test]
fn infinity_prefers_longest_word() {
    let (rest, _) = parser::number("infinityx").unwrap();
    assert_eq!("x", rest);
    let (rest, _) = parser::number("infx").unwrap();
    assert_eq!("x", rest);
}

#[test]
fn not_a_number() {
    for input in ["", "+", "-", ".", "x", "-nan", "e5"] {
        let error = parser::number(input).unwrap_err();
        assert_eq!(Rule::Number, error.rule, "input: {input}");
        assert_eq!(0, error.offset);
    }
}

#[test]
fn format_round_trip() {
    for input in ["+1", "1.", ".5", "-0", "3e-5", "0.5E8", "-InFiNiTy", "inf", "NaN", "007.100e+01"] {
        let n = parse_all(input);
        let text = n.format();
        let again = parse_all(&text);
        assert_eq!(n, again, "input: {input} text: {text}");
    }
}

#[test]
fn format_special_values() {
    assert_eq!("+Inf", parse_all("infinity").format());
    assert_eq!("-Inf", parse_all("-inf").format());
    assert_eq!("NaN", parse_all("nan").format());
}
