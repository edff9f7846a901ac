//! Numbers as text: decimal digits, and fixed-point numbers with a set
//! count of digits after the point.

use vstd::prelude::*;

verus! {

/// `String::push` appends the character to the end of the string.
pub assume_specification[ String::push ](s: &mut String, c: char)
    ensures
        final(s)@ == old(s)@.push(c),
;

/// The texts of the strings.
pub open spec fn texts_of(strings: Seq<String>) -> Seq<Seq<char>> {
    strings.map_values(|s: String| s@)
}

/// The character of a decimal digit.
pub open spec fn digit_char(d: nat) -> char
    recommends
        d < 10,
{
    if d == 0 {
        '0'
    } else if d == 1 {
        '1'
    } else if d == 2 {
        '2'
    } else if d == 3 {
        '3'
    } else if d == 4 {
        '4'
    } else if d == 5 {
        '5'
    } else if d == 6 {
        '6'
    } else if d == 7 {
        '7'
    } else if d == 8 {
        '8'
    } else {
        '9'
    }
}

/// `n` in decimal digits, without leading zeros.
pub open spec fn decimal(n: nat) -> Seq<char>
    decreases n,
{
    if n < 10 {
        seq![digit_char(n)]
    } else {
        decimal(n / 10).push(digit_char(n % 10))
    }
}

/// The last `places` decimal digits of `n`, with leading zeros.
pub open spec fn low_digits(n: nat, places: nat) -> Seq<char>
    decreases places,
{
    if places == 0 {
        Seq::empty()
    } else {
        low_digits(n / 10, (places - 1) as nat).push(digit_char(n % 10))
    }
}

/// Ten to the power of `places`.
pub open spec fn pow10(places: nat) -> nat
    decreases places,
{
    if places == 0 {
        1
    } else {
        10 * pow10((places - 1) as nat)
    }
}

/// `n / 10^places` as a decimal number with `places` digits after the
/// point: `fixed_point(6667, 2)` is `66.67`.
pub open spec fn fixed_point(n: nat, places: nat) -> Seq<char> {
    decimal(n / pow10(places)) + seq!['.'] + low_digits(n, places)
}

/// The character of a decimal digit.
pub fn digit(d: u8) -> (c: char)
    requires
        d < 10,
    ensures
        c == digit_char(d as nat),
{
    if d == 0 {
        '0'
    } else if d == 1 {
        '1'
    } else if d == 2 {
        '2'
    } else if d == 3 {
        '3'
    } else if d == 4 {
        '4'
    } else if d == 5 {
        '5'
    } else if d == 6 {
        '6'
    } else if d == 7 {
        '7'
    } else if d == 8 {
        '8'
    } else {
        '9'
    }
}

/// Appends the characters of `digits` to `out`, the last one first.
fn push_reversed(out: &mut String, digits: &Vec<char>)
    ensures
        final(out)@ == old(out)@ + digits@.reverse(),
{
    let mut i: usize = digits.len();
    while i > 0
        invariant
            i <= digits@.len(),
            out@ == old(out)@ + digits@.reverse().subrange(0, digits@.len() - i),
        decreases i,
    {
        i = i - 1;
        out.push(digits[i]);
    }
    assert(digits@.reverse().subrange(0, digits@.len() as int) =~= digits@.reverse());
}

/// Appends `n` in decimal digits to `out`.
pub fn push_decimal(out: &mut String, n: u128)
    ensures
        final(out)@ == old(out)@ + decimal(n as nat),
{
    let mut digits: Vec<char> = Vec::new();
    digits.push(digit((n % 10) as u8));
    let mut rest: u128 = n / 10;
    assert(digits@.reverse() =~= seq![digit_char((n % 10) as nat)]);
    while rest > 0
        invariant
            digits@.len() > 0,
            decimal(n as nat) == if rest == 0 {
                digits@.reverse()
            } else {
                decimal(rest as nat) + digits@.reverse()
            },
        decreases rest,
    {
        let ghost before = digits@;
        digits.push(digit((rest % 10) as u8));
        proof {
            let d = digit_char((rest % 10) as nat);
            assert(digits@.reverse() =~= seq![d] + before.reverse());
            if rest < 10 {
                assert(decimal(rest as nat) + before.reverse() =~= digits@.reverse());
            } else {
                assert(decimal(rest as nat) + before.reverse() =~= decimal((rest / 10) as nat)
                    + digits@.reverse());
            }
        }
        rest = rest / 10;
    }
    push_reversed(out, &digits);
}

/// `n` in decimal digits.
pub fn decimal_text(n: u128) -> (s: String)
    ensures
        s@ == decimal(n as nat),
{
    let mut s = String::new();
    push_decimal(&mut s, n);
    s
}

/// Appends `n / 10^places` to `out` as a decimal number with `places`
/// digits after the point.
pub fn push_fixed_point(out: &mut String, n: u128, places: u8)
    ensures
        final(out)@ == old(out)@ + fixed_point(n as nat, places as nat),
{
    let mut digits: Vec<char> = Vec::new();
    let mut rest: u128 = n;
    let mut done: u8 = 0;
    while done < places
        invariant
            done <= places,
            digits@.len() == done,
            low_digits(n as nat, places as nat) == low_digits(
                rest as nat,
                (places - done) as nat,
            ) + digits@.reverse(),
            (n as nat) / pow10(places as nat) == (rest as nat) / pow10((places - done) as nat),
        decreases places - done,
    {
        let ghost before = digits@;
        digits.push(digit((rest % 10) as u8));
        proof {
            let d = digit_char((rest % 10) as nat);
            let left = (places - done) as nat;
            assert(digits@.reverse() =~= seq![d] + before.reverse());
            assert(low_digits(rest as nat, left) + before.reverse() =~= low_digits(
                (rest / 10) as nat,
                (left - 1) as nat,
            ) + digits@.reverse());
            lemma_div_pow10(rest as nat, left);
        }
        rest = rest / 10;
        done = done + 1;
    }
    proof {
        assert(low_digits(rest as nat, 0) + digits@.reverse() =~= digits@.reverse());
        let one = pow10((places - done) as nat);
        assert(one == 1);
        assert((rest as nat) / one == rest) by (nonlinear_arith)
            requires
                one == 1,
        ;
    }
    push_decimal(out, rest);
    out.push('.');
    push_reversed(out, &digits);
    assert(out@ =~= old(out)@ + (decimal(rest as nat) + seq!['.'] + digits@.reverse()));
}

/// Dividing by ten and then by a power of ten divides by the next power.
proof fn lemma_div_pow10(n: nat, places: nat)
    requires
        places > 0,
    ensures
        pow10(places) > 0,
        pow10((places - 1) as nat) > 0,
        n / pow10(places) == (n / 10) / pow10((places - 1) as nat),
{
    lemma_pow10_positive(places);
    lemma_pow10_positive((places - 1) as nat);
    let p = pow10((places - 1) as nat);
    vstd::arithmetic::div_mod::lemma_div_denominator(n as int, 10, p as int);
}

/// A power of ten is positive.
pub proof fn lemma_pow10_positive(places: nat)
    ensures
        pow10(places) > 0,
    decreases places,
{
    if places > 0 {
        lemma_pow10_positive((places - 1) as nat);
    }
}

} // verus!
