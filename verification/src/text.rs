use vstd::prelude::*;

verus! {

/// The pieces of `parts`, with `sep` between each neighbouring pair.
pub open spec fn join_with(parts: Seq<Seq<char>>, sep: Seq<char>) -> Seq<char>
    decreases parts.len(),
{
    if parts.len() == 0 {
        Seq::empty()
    } else if parts.len() == 1 {
        parts[0]
    } else {
        join_with(parts.drop_last(), sep) + sep + parts.last()
    }
}


/// The characters of `s`, in order.
pub fn chars_of(s: &str) -> (v: Vec<char>)
    ensures
        v@ == s@,
{
    let mut v: Vec<char> = Vec::new();
    for c in it: s.chars()
        invariant
            v@ == it.seq().take(it.index() as int),
    {
        v.push(c);
    }
    v
}


/// The characters `cs[a..b]` as a string.
pub fn string_of_range(cs: &[char], a: usize, b: usize) -> (s: String)
    requires
        a <= b <= cs@.len(),
    ensures
        s@ == cs@.subrange(a as int, b as int),
{
    let mut s = String::new();
    let mut k: usize = a;
    while k < b
        invariant
            a <= k <= b,
            b <= cs@.len(),
            s@ == cs@.subrange(a as int, k as int),
        decreases b - k,
    {
        crate::pretty::push_char(&mut s, cs[k]);
        proof {
            assert(cs@.subrange(a as int, k + 1) =~= cs@.subrange(a as int, k as int).push(cs@[k as int]));
        }
        k += 1;
    }
    s
}

/// The decimal digits of `n`.
pub open spec fn decimal(n: nat) -> Seq<char>
    decreases n,
{
    if n < 10 {
        seq![((n + 48) as char)]
    } else {
        decimal(n / 10).push((((n % 10) + 48) as char))
    }
}

/// Appends the decimal digits of `n` to `s`.
pub fn push_decimal(s: &mut String, n: usize)
    ensures
        final(s)@ == old(s)@ + decimal(n as nat),
    decreases n,
{
    if n >= 10 {
        push_decimal(s, n / 10);
    }
    let d = (n % 10) as u8;
    let c = (d + 48u8) as char;
    crate::pretty::push_char(s, c);
    proof {
        assert(s@ =~= old(s)@ + decimal(n as nat));
    }
}

/// Extending a prefix of `s` by one piece extends its join by the separator and that piece.
pub proof fn lemma_join_take_step(s: Seq<Seq<char>>, sep: Seq<char>, i: int)
    requires
        0 <= i < s.len(),
    ensures
        join_with(s.take(i + 1), sep) == (if i == 0 { s[0] } else { join_with(s.take(i), sep) + sep + s[i] }),
{
    assert(s.take(i + 1).drop_last() =~= s.take(i));
}

/// Whether two strings hold the same characters.
///
/// Calls `<str as PartialEq>::eq`; its documented behaviour is equality of the
/// two strings, which the contract states over their character sequences.
#[verifier::external_body]
pub(crate) fn str_eq(a: &str, b: &str) -> (r: bool)
    ensures
        r == (a@ == b@),
{
    a == b
}

/// `n` copies of the four-space indent unit.
pub open spec fn indent_text(n: nat) -> Seq<char>
    decreases n,
{
    if n == 0 {
        Seq::empty()
    } else {
        indent_text((n - 1) as nat) + "    "@
    }
}

} // verus!
