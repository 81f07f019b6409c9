//! Building the short texts that events and stored records carry.

use vstd::prelude::*;

verus! {

/// `String::push_str` appends the characters of `string`.
pub assume_specification[ String::push_str ](s: &mut String, string: &str)
    ensures
        final(s)@ == old(s)@ + string@,
;

/// `String::push` appends one character.
pub assume_specification[ String::push ](s: &mut String, ch: char)
    ensures
        final(s)@ == old(s)@.push(ch),
;

/// The ASCII code of a decimal digit.
pub open spec fn digit_code(d: nat) -> u8 {
    (0x30 + d) as u8
}

/// A number written in decimal, without sign or leading zeros, in ASCII.
pub open spec fn decimal_digits(n: nat) -> Seq<u8>
    decreases n,
{
    if n < 10 {
        seq![digit_code(n)]
    } else {
        decimal_digits(n / 10).push(digit_code(n % 10))
    }
}

/// A number written in decimal, without sign or leading zeros.
pub open spec fn decimal(n: nat) -> Seq<char> {
    decimal_digits(n).map_values(|b: u8| b as char)
}

/// Appends `n` in decimal, in ASCII.
pub fn push_decimal_digits(out: &mut Vec<u8>, n: u64)
    ensures
        final(out)@ == old(out)@ + decimal_digits(n as nat),
{
    let mut rest: u64 = n;
    let mut low: Vec<u8> = Vec::new();
    while rest >= 10
        invariant
            decimal_digits(n as nat) == decimal_digits(rest as nat) + low@.reverse(),
        decreases rest,
    {
        let ghost before = low@;
        low.push((0x30 + rest % 10) as u8);
        proof {
            let d = digit_code((rest % 10) as nat);
            assert(low@.reverse() =~= seq![d] + before.reverse());
            assert(decimal_digits(rest as nat) + before.reverse() =~= decimal_digits(
                (rest / 10) as nat,
            ) + low@.reverse());
        }
        rest = rest / 10;
    }
    out.push((0x30 + rest) as u8);
    let mut k: usize = low.len();
    while k > 0
        invariant
            k <= low@.len(),
            out@ == old(out)@ + decimal_digits(rest as nat) + low@.reverse().subrange(
                0,
                low@.len() - k,
            ),
        decreases k,
    {
        k -= 1;
        out.push(low[k]);
        proof {
            let r = low@.reverse();
            let m = low@.len() - k - 1;
            assert(r.subrange(0, m + 1) =~= r.subrange(0, m).push(r[m]));
            assert(out@ =~= old(out)@ + decimal_digits(rest as nat) + r.subrange(0, m + 1));
        }
    }
    proof {
        let r = low@.reverse();
        assert(r.subrange(0, low@.len() as int) =~= r);
        assert(out@ =~= old(out)@ + decimal_digits(n as nat));
    }
}

/// Appends `n` in decimal.
pub fn push_decimal(s: &mut String, n: u64)
    ensures
        final(s)@ == old(s)@ + decimal(n as nat),
{
    let mut digits: Vec<u8> = Vec::new();
    push_decimal_digits(&mut digits, n);
    assert(digits@ =~= decimal_digits(n as nat));
    let mut i: usize = 0;
    assert(old(s)@ + decimal(n as nat).subrange(0, 0) =~= old(s)@);
    while i < digits.len()
        invariant
            i <= digits@.len(),
            digits@ == decimal_digits(n as nat),
            s@ == old(s)@ + decimal(n as nat).subrange(0, i as int),
        decreases digits@.len() - i,
    {
        s.push(digits[i] as char);
        assert(s@ =~= old(s)@ + decimal(n as nat).subrange(0, i + 1));
        i += 1;
    }
    assert(decimal(n as nat).subrange(0, digits@.len() as int) =~= decimal(n as nat));
}

/// The text starts with the prefix.
pub open spec fn begins_with(text: Seq<char>, prefix: Seq<char>) -> bool {
    text.len() >= prefix.len() && text.subrange(0, prefix.len() as int) == prefix
}

/// The text `prefix` followed by `detail`.
pub fn prefixed(prefix: &str, detail: &str) -> (s: String)
    ensures
        s@ == prefix@ + detail@,
        begins_with(s@, prefix@),
{
    let mut s = String::new();
    s.push_str(prefix);
    s.push_str(detail);
    assert(s@ =~= prefix@ + detail@);
    assert(s@.subrange(0, prefix@.len() as int) =~= prefix@);
    s
}

} // verus!
