//! Decimal text of unsigned integers.

use vstd::prelude::*;

verus! {

/// The character that stands for a single decimal digit.
pub open spec fn digit_char(d: nat) -> char
    recommends
        d < 10,
{
    (('0' as u8) + d) as char
}

/// The decimal text of `n`: no sign, no leading zero, `"0"` for zero.
pub open spec fn decimal_text(n: nat) -> Seq<char>
    decreases n,
{
    if n < 10 {
        seq![digit_char(n)]
    } else {
        decimal_text(n / 10).push(digit_char(n % 10))
    }
}

/// `String::push` of the standard library: the character is appended at the
/// end and nothing else changes.
pub assume_specification[ String::push ](s: &mut String, c: char)
    ensures
        final(s)@ == old(s)@.push(c),
;

/// Appends the decimal text of `n` to `out`.
pub fn push_decimal(out: &mut String, n: u64)
    ensures
        final(out)@ == old(out)@ + decimal_text(n as nat),
{
    let mut digits: Vec<char> = Vec::new();
    let mut rest: u64 = n;
    while rest >= 10
        invariant
            decimal_text(n as nat) == decimal_text(rest as nat) + digits@.reverse(),
        decreases rest,
    {
        let d: u8 = (rest % 10) as u8;
        let c: char = (48u8 + d) as char;
        proof {
            assert(c == digit_char((rest % 10) as nat));
            assert(decimal_text(rest as nat) == decimal_text((rest / 10) as nat).push(c));
            assert(digits@.push(c).reverse() == seq![c] + digits@.reverse());
            assert(decimal_text((rest / 10) as nat).push(c) + digits@.reverse()
                == decimal_text((rest / 10) as nat) + (seq![c] + digits@.reverse()));
        }
        digits.push(c);
        rest = rest / 10;
    }
    let lead: char = (48u8 + (rest as u8)) as char;
    assert(decimal_text(rest as nat) == seq![lead]);
    out.push(lead);
    let mut i: usize = digits.len();
    while i > 0
        invariant
            i <= digits.len(),
            out@ + digits@.reverse().subrange(digits.len() - i, digits.len() as int) == old(out)@
                + decimal_text(n as nat),
        decreases i,
    {
        i = i - 1;
        let c: char = digits[i];
        proof {
            let r = digits@.reverse();
            let k = digits.len() - i - 1;
            assert(r[k] == c);
            assert(r.subrange(k, digits.len() as int) == seq![c] + r.subrange(
                k + 1,
                digits.len() as int,
            ));
            assert(out@.push(c) + r.subrange(k + 1, digits.len() as int) == out@ + (seq![c]
                + r.subrange(k + 1, digits.len() as int)));
        }
        out.push(c);
    }
    assert(digits@.reverse().subrange(digits.len() as int, digits.len() as int) == Seq::<
        char,
    >::empty());
}

/// The decimal text of `n` as a string of its own.
pub fn decimal_string(n: u64) -> (s: String)
    ensures
        s@ == decimal_text(n as nat),
{
    let mut s = String::new();
    push_decimal(&mut s, n);
    s
}

} // verus!
