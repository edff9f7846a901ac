//! Ratios as fixed-point percentages.

use crate::text::{fixed_point, push_fixed_point};
use vstd::prelude::*;

verus! {

/// `num / den` rounded to the nearest whole number, a tie going to the even
/// neighbour.
pub open spec fn round_half_even(num: nat, den: nat) -> nat
    recommends
        den > 0,
{
    let q = num / den;
    let r = num % den;
    if 2 * r < den || (2 * r == den && q % 2 == 0) {
        q
    } else {
        q + 1
    }
}

/// `part / whole` as a percentage in hundredths of a percent, rounded to the
/// nearest hundredth.
pub open spec fn percent_of(part: nat, whole: nat) -> nat
    recommends
        whole > 0,
{
    round_half_even(part * 10_000, whole)
}

/// The rounded quotient is within half a unit of the exact one.
pub proof fn lemma_round_half_even_is_nearest(num: nat, den: nat)
    requires
        den > 0,
    ensures
        2 * (round_half_even(num, den) * den - num) <= den,
        2 * (num - round_half_even(num, den) * den) <= den,
{
    let q = num / den;
    let r = num % den;
    assert(num == q * den + r && 0 <= r < den) by (nonlinear_arith)
        requires
            den > 0,
            q == num / den,
            r == num % den,
    ;
    assert((q + 1) * den == q * den + den) by (nonlinear_arith);
}

/// A part of a whole is between 0 % and 100 % of it; none of it is 0 %, and
/// all of it is 100 %.
pub proof fn lemma_percent_of_range(part: nat, whole: nat)
    requires
        whole > 0,
        part <= whole,
    ensures
        percent_of(part, whole) <= 10_000,
        part == 0 ==> percent_of(part, whole) == 0,
        part == whole ==> percent_of(part, whole) == 10_000,
{
    let num = part * 10_000;
    let q = num / whole;
    let r = num % whole;
    assert(num == q * whole + r && 0 <= r < whole) by (nonlinear_arith)
        requires
            whole > 0,
            q == num / whole,
            r == num % whole,
    ;
    assert(q <= 10_000 && (q == 10_000 ==> r == 0) && (part == whole ==> q == 10_000)) by (nonlinear_arith)
        requires
            whole > 0,
            part <= whole,
            num == part * 10_000,
            num == q * whole + r,
            0 <= r < whole,
    ;
}

/// `num / den` rounded to the nearest whole number, a tie going to the even
/// neighbour.
pub fn rounded_div(num: u128, den: u128) -> (q: u128)
    requires
        0 < den <= u64::MAX,
    ensures
        q == round_half_even(num as nat, den as nat),
{
    let q: u128 = num / den;
    let r: u128 = num % den;
    if 2 * r < den || (2 * r == den && q % 2 == 0) {
        q
    } else {
        proof {
            assert(q * den + r == num && q < u128::MAX) by (nonlinear_arith)
                requires
                    q == num / den,
                    r == num % den,
                    den > 0,
                    2 * r >= den,
                    num <= u128::MAX,
            ;
        }
        q + 1
    }
}

/// A percentage with two decimal places, held in hundredths of a percent:
/// 6667 stands for 66.67 %.
#[derive(Clone, Copy, Debug, PartialEq, Eq, Structural)]
pub struct Percent {
    pub hundredths: u32,
}

impl Percent {
    /// 0 %.
    pub fn zero() -> (p: Percent)
        ensures
            p.hundredths == 0,
    {
        Percent { hundredths: 0 }
    }

    /// `part` of `whole` as a percentage, rounded to the nearest hundredth
    /// of a percent, a tie going to the even hundredth.
    pub fn of(part: u64, whole: u64) -> (p: Percent)
        requires
            0 < whole,
            part <= whole,
        ensures
            p.hundredths == percent_of(part as nat, whole as nat),
            p.hundredths <= 10_000,
    {
        proof {
            lemma_percent_of_range(part as nat, whole as nat);
        }
        let rounded = rounded_div((part as u128) * 10_000, whole as u128);
        Percent { hundredths: rounded as u32 }
    }

    /// The percentage as text, with two digits after the point: `66.67`.
    pub fn to_text(&self) -> (text: String)
        ensures
            text@ == fixed_point(self.hundredths as nat, 2),
    {
        let mut text = String::new();
        push_fixed_point(&mut text, self.hundredths as u128, 2);
        text
    }
}

} // verus!
