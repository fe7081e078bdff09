use vstd::prelude::*;

verus! {

/// The exponent of a decimal literal: `e`, an optional sign and its digits.
#[derive(Clone, Debug, PartialEq)]
pub struct Exponent {
    pub negative: bool,
    pub digits: String,
}

/// A finite decimal literal, kept as written: its sign, the digits before
/// the point, the digits after it (when a point was written) and the exponent.
#[derive(Clone, Debug, PartialEq)]
pub struct Decimal {
    pub negative: bool,
    pub integer: String,
    pub fraction: Option<String>,
    pub exponent: Option<Exponent>,
}

/// A metric value: a decimal literal, a signed infinity, or not-a-number.
#[derive(Clone, Debug, PartialEq)]
pub enum Number {
    Real(Decimal),
    Infinity { negative: bool },
    NaN,
}

pub struct SpecExponent {
    pub negative: bool,
    pub digits: Seq<char>,
}

pub struct SpecDecimal {
    pub negative: bool,
    pub integer: Seq<char>,
    pub fraction: Option<Seq<char>>,
    pub exponent: Option<SpecExponent>,
}

pub enum SpecNumber {
    Real(SpecDecimal),
    Infinity { negative: bool },
    NaN,
}

impl View for Decimal {
    type V = SpecDecimal;

    open spec fn view(&self) -> SpecDecimal {
        SpecDecimal {
            negative: self.negative,
            integer: self.integer@,
            fraction: match &self.fraction {
                Some(f) => Some(f@),
                None => None,
            },
            exponent: match &self.exponent {
                Some(e) => Some(SpecExponent { negative: e.negative, digits: e.digits@ }),
                None => None,
            },
        }
    }
}

impl View for Number {
    type V = SpecNumber;

    open spec fn view(&self) -> SpecNumber {
        match self {
            Number::Real(d) => SpecNumber::Real(d@),
            Number::Infinity { negative } => SpecNumber::Infinity { negative: *negative },
            Number::NaN => SpecNumber::NaN,
        }
    }
}

impl DeepView for Number {
    type V = SpecNumber;

    open spec fn deep_view(&self) -> SpecNumber {
        self@
    }
}

pub open spec fn sign_text(negative: bool) -> Seq<char> {
    if negative {
        seq!['-']
    } else {
        Seq::empty()
    }
}

/// `.` and the fraction digits, where a point was written.
pub open spec fn fraction_text(f: Option<Seq<char>>) -> Seq<char> {
    match f {
        Some(f) => seq!['.'] + f,
        None => Seq::<char>::empty(),
    }
}

/// `e`, `-` where it is negative, and the exponent digits.
pub open spec fn exponent_text(e: Option<SpecExponent>) -> Seq<char> {
    match e {
        Some(x) => seq!['e'] + sign_text(x.negative) + x.digits,
        None => Seq::<char>::empty(),
    }
}

/// A decimal literal written out: `-` where it is negative, the integer
/// digits, the fraction and the exponent.
pub open spec fn format_decimal(d: SpecDecimal) -> Seq<char> {
    sign_text(d.negative) + d.integer + fraction_text(d.fraction) + exponent_text(d.exponent)
}

/// A number written out: a decimal as `format_decimal` writes it, `+Inf`,
/// `-Inf` or `NaN`.
pub open spec fn format_number(n: SpecNumber) -> Seq<char> {
    match n {
        SpecNumber::Real(d) => format_decimal(d),
        SpecNumber::Infinity { negative } => if negative {
            seq!['-', 'I', 'n', 'f']
        } else {
            seq!['+', 'I', 'n', 'f']
        },
        SpecNumber::NaN => seq!['N', 'a', 'N'],
    }
}

fn push_sign(out: &mut String, negative: bool)
    ensures
        final(out)@ == old(out)@ + sign_text(negative),
{
    if negative {
        out.push('-');
    } else {
        assert(old(out)@ + sign_text(negative) =~= old(out)@);
    }
}

impl Decimal {
    /// The literal written out, as `format_decimal` states.
    pub fn format(&self) -> (r: String)
        ensures
            r@ == format_decimal(self@),
    {
        let mut out = String::new();
        push_sign(&mut out, self.negative);
        out.append(self.integer.as_str());
        let ghost head = out@;
        match &self.fraction {
            Some(f) => {
                out.push('.');
                out.append(f.as_str());
                assert(out@ =~= head + fraction_text(self@.fraction));
            },
            None => {
                assert(out@ =~= head + fraction_text(self@.fraction));
            },
        }
        let ghost body = out@;
        match &self.exponent {
            Some(e) => {
                out.push('e');
                push_sign(&mut out, e.negative);
                out.append(e.digits.as_str());
                assert(out@ =~= body + exponent_text(self@.exponent));
            },
            None => {
                assert(out@ =~= body + exponent_text(self@.exponent));
            },
        }
        out
    }
}

impl Number {
    /// The number written out, as `format_number` states.
    pub fn format(&self) -> (r: String)
        ensures
            r@ == format_number(self@),
    {
        match self {
            Number::Real(d) => d.format(),
            Number::Infinity { negative } => {
                let mut out = String::new();
                out.push(if *negative {
                    '-'
                } else {
                    '+'
                });
                out.push('I');
                out.push('n');
                out.push('f');
                assert(out@ =~= format_number(self@));
                out
            },
            Number::NaN => {
                let mut out = String::new();
                out.push('N');
                out.push('a');
                out.push('N');
                assert(out@ =~= format_number(self@));
                out
            },
        }
    }
}

} // verus!
