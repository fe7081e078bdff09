use crate::error::{fail, failure, outcome_of, Outcome, ParseError, Rule};
use vstd::prelude::*;

verus! {

/// The character that a backslash followed by `c` stands for: `\n` is a
/// newline, any other character (`\\` and `\"` among them) stands for itself.
pub open spec fn unescape(c: char) -> char {
    if c == 'n' {
        '\n'
    } else {
        c
    }
}

/// Whether `c` ends a run of plain text: a backslash, a newline, and in a
/// quoted label value the quote.
pub open spec fn stops_text(c: char, quoted: bool) -> bool {
    c == '\\' || c == '\n' || (quoted && c == '"')
}

/// The text that starts at `i`, decoded, and the position where it stops:
/// at a newline, at a quote (in a label value), at a backslash that ends the
/// input, or at the end.
pub open spec fn scan_text(s: Seq<char>, i: int, quoted: bool) -> (Seq<char>, int)
    decreases s.len() - i,
{
    if 0 <= i < s.len() {
        if s[i] == '\\' {
            if i + 1 < s.len() {
                let (t, e) = scan_text(s, i + 2, quoted);
                (seq![unescape(s[i + 1])] + t, e)
            } else {
                (Seq::empty(), i)
            }
        } else if stops_text(s[i], quoted) {
            (Seq::empty(), i)
        } else {
            let (t, e) = scan_text(s, i + 1, quoted);
            (seq![s[i]] + t, e)
        }
    } else {
        (Seq::empty(), i)
    }
}

pub proof fn lemma_scan_text_end(s: Seq<char>, i: int, quoted: bool)
    requires
        0 <= i <= s.len(),
    ensures
        i <= scan_text(s, i, quoted).1 <= s.len(),
    decreases s.len() - i,
{
    if i < s.len() {
        if s[i] == '\\' {
            if i + 1 < s.len() {
                lemma_scan_text_end(s, i + 2, quoted);
            }
        } else if !stops_text(s[i], quoted) {
            lemma_scan_text_end(s, i + 1, quoted);
        }
    }
}

/// A label value: text between double quotes.
pub open spec fn spec_label_string(s: Seq<char>, i: int) -> Outcome<Seq<char>> {
    if 0 <= i < s.len() && s[i] == '"' {
        let (v, e) = scan_text(s, i + 1, true);
        if 0 <= e < s.len() && s[e] == '"' {
            Ok((v, e + 1))
        } else {
            failure(Rule::LabelString, e, false)
        }
    } else {
        failure(Rule::LabelString, i, false)
    }
}

/// Decodes the text from `i` on, as `scan_text` states.
pub fn scan_text_at(s: &Vec<char>, i: usize, quoted: bool) -> (r: (String, usize))
    requires
        i <= s@.len(),
    ensures
        (r.0@, r.1 as int) == scan_text(s@, i as int, quoted),
        i <= r.1 <= s@.len(),
{
    let ghost total = scan_text(s@, i as int, quoted);
    proof {
        lemma_scan_text_end(s@, i as int, quoted);
    }
    let mut out = String::new();
    let mut k = i;
    loop
        invariant
            i <= k <= s@.len(),
            total.0 == out@ + scan_text(s@, k as int, quoted).0,
            total.1 == scan_text(s@, k as int, quoted).1,
        ensures
            scan_text(s@, k as int, quoted).0 =~= Seq::<char>::empty(),
            scan_text(s@, k as int, quoted).1 == k,
        decreases s@.len() - k,
    {
        if k >= s.len() {
            break ;
        }
        let c = s[k];
        if c == '\\' {
            if k + 1 < s.len() {
                let d = s[k + 1];
                let u = if d == 'n' {
                    '\n'
                } else {
                    d
                };
                let ghost before = out@;
                out.push(u);
                assert(before + scan_text(s@, k as int, quoted).0 =~= out@ + scan_text(
                    s@,
                    k + 2,
                    quoted,
                ).0);
                k = k + 2;
            } else {
                break ;
            }
        } else if c == '\n' || (quoted && c == '"') {
            break ;
        } else {
            let ghost before = out@;
            out.push(c);
            assert(before + scan_text(s@, k as int, quoted).0 =~= out@ + scan_text(
                s@,
                k + 1,
                quoted,
            ).0);
            k = k + 1;
        }
    }
    assert(out@ =~= out@ + Seq::<char>::empty());
    (out, k)
}

/// Parses a label value, which includes its surrounding quotes.
pub fn label_string_at(s: &Vec<char>, i: usize) -> (r: Result<(String, usize), ParseError>)
    requires
        i <= s@.len(),
    ensures
        outcome_of(r) == spec_label_string(s@, i as int),
{
    if i < s.len() && s[i] == '"' {
        let (v, e) = scan_text_at(s, i + 1, true);
        if e < s.len() && s[e] == '"' {
            Ok((v, e + 1))
        } else {
            Err(fail(Rule::LabelString, e, false))
        }
    } else {
        Err(fail(Rule::LabelString, i, false))
    }
}

} // verus!
