use vstd::prelude::*;

verus! {

/// Relies on `String::push`: the character is appended at the end.
pub assume_specification[ String::push ](s: &mut String, ch: char)
    ensures
        final(s)@ == old(s)@.push(ch),
;

/// Whether `lit` stands in `s` at position `i`.
pub open spec fn has_at(s: Seq<char>, i: int, lit: Seq<char>) -> bool {
    0 <= i && i + lit.len() <= s.len() && s.subrange(i, i + lit.len()) == lit
}

/// The characters of a string, in order.
pub fn chars_of(input: &str) -> (r: Vec<char>)
    ensures
        r@ == input@,
{
    let mut out: Vec<char> = Vec::new();
    for c in it: input.chars()
        invariant
            out@ == it.seq().take(it.index() as int),
    {
        out.push(c);
    }
    out
}

/// Whether `lit` stands in `s` at position `i`.
pub fn tag_at(s: &Vec<char>, i: usize, lit: &[char]) -> (r: bool)
    ensures
        r == has_at(s@, i as int, lit@),
        r ==> i + lit.len() <= s.len(),
{
    if i > s.len() || lit.len() > s.len() - i {
        return false;
    }
    let mut k: usize = 0;
    while k < lit.len()
        invariant
            i + lit.len() <= s.len(),
            k <= lit@.len(),
            forall|m: int| 0 <= m < k ==> s@[i + m] == lit@[m],
        decreases lit@.len() - k,
    {
        if s[i + k] != lit[k] {
            assert(s@.subrange(i as int, i + lit@.len())[k as int] != lit@[k as int]);
            return false;
        }
        k = k + 1;
    }
    assert(s@.subrange(i as int, i + lit@.len()) =~= lit@);
    true
}

/// The characters of `s` from `from` up to `to`, as a string.
pub fn string_of(s: &Vec<char>, from: usize, to: usize) -> (r: String)
    requires
        from <= to <= s@.len(),
    ensures
        r@ == s@.subrange(from as int, to as int),
{
    let mut out = String::new();
    let mut k = from;
    while k < to
        invariant
            from <= k <= to <= s@.len(),
            out@ == s@.subrange(from as int, k as int),
        decreases to - k,
    {
        out.push(s[k]);
        k = k + 1;
        assert(out@ =~= s@.subrange(from as int, k as int));
    }
    out
}

/// The rest of `input` after its first `from` characters.
pub fn rest_of<'a>(input: &'a str, from: usize) -> (r: &'a str)
    requires
        from <= input@.len(),
    ensures
        r@ == input@.subrange(from as int, input@.len() as int),
{
    let n = input.unicode_len();
    input.substring_char(from, n)
}

} // verus!
