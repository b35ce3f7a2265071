//! Exact fractions of work done.

use vstd::prelude::*;

verus! {

/// How much of a whole is done: `(whole + part / parts) / of`, never taken to
/// be more than one. The four numbers are kept apart so that a caller can
/// evaluate the fraction in whatever arithmetic it displays.
#[derive(Debug, Clone, Copy, PartialEq, Eq, Structural)]
pub struct Fraction {
    pub whole: u64,
    pub part: u64,
    pub parts: u64,
    pub of: u64,
}

impl Fraction {
    /// Neither divisor is zero.
    pub open spec fn valid(self) -> bool {
        self.parts > 0 && self.of > 0
    }

    /// The denominator of the fraction over a common divisor.
    pub open spec fn denom(self) -> int {
        self.parts * self.of
    }

    /// The numerator before it is held to the denominator.
    pub open spec fn unclamped(self) -> int {
        self.whole * self.parts + self.part
    }

    /// The numerator of the fraction, at most its denominator.
    pub open spec fn numer(self) -> int {
        if self.unclamped() <= self.denom() {
            self.unclamped()
        } else {
            self.denom()
        }
    }

    /// `self` is at most `other`.
    pub open spec fn at_most(self, other: Fraction) -> bool {
        self.numer() * other.denom() <= other.numer() * self.denom()
    }

    /// `self` is exactly one.
    pub open spec fn complete(self) -> bool {
        self.numer() == self.denom()
    }

    /// The fraction as numerator and denominator, held to at most one.
    pub fn clamped(&self) -> (r: (u128, u128))
        requires
            self.valid(),
        ensures
            r.0 == self.numer(),
            r.1 == self.denom(),
    {
        let ghost most = u64::MAX as int;
        proof {
            let (w, p, o) = (self.whole as int, self.parts as int, self.of as int);
            assert(0 <= w * p <= most * most) by (nonlinear_arith)
                requires
                    0 <= w <= most,
                    0 <= p <= most,
            ;
            assert(0 <= p * o <= most * most) by (nonlinear_arith)
                requires
                    0 <= o <= most,
                    0 <= p <= most,
            ;
            assert(most * most + most <= u128::MAX) by (nonlinear_arith)
                requires
                    most == u64::MAX,
            ;
        }
        let denom: u128 = self.parts as u128 * self.of as u128;
        let done: u128 = self.whole as u128 * self.parts as u128 + self.part as u128;
        if done <= denom {
            (done, denom)
        } else {
            (denom, denom)
        }
    }
}

/// A fraction lies between zero and one.
pub proof fn fraction_is_between_zero_and_one(f: Fraction)
    requires
        f.valid(),
    ensures
        0 < f.denom(),
        0 <= f.numer() <= f.denom(),
{
    let (w, p, o) = (f.whole as int, f.parts as int, f.of as int);
    assert(0 < p * o) by (nonlinear_arith)
        requires
            p > 0,
            o > 0,
    ;
    assert(0 <= w * p) by (nonlinear_arith)
        requires
            p > 0,
            w >= 0,
    ;
}

/// Being at most is transitive, so a list of fractions in which each is at
/// most the next is in order throughout.
pub proof fn at_most_is_transitive(a: Fraction, b: Fraction, c: Fraction)
    requires
        a.valid(),
        b.valid(),
        c.valid(),
        a.at_most(b),
        b.at_most(c),
    ensures
        a.at_most(c),
{
    fraction_is_between_zero_and_one(a);
    fraction_is_between_zero_and_one(b);
    fraction_is_between_zero_and_one(c);
    let (an, ad, bn, bd, cn, cd) = (a.numer(), a.denom(), b.numer(), b.denom(), c.numer(), c.denom());
    assert(an * cd <= cn * ad) by (nonlinear_arith)
        requires
            an * bd <= bn * ad,
            bn * cd <= cn * bd,
            ad > 0,
            bd > 0,
            cd > 0,
    {
        assert((an * bd) * cd <= (bn * ad) * cd);
        assert((bn * cd) * ad <= (cn * bd) * ad);
        assert((an * cd) * bd <= (cn * ad) * bd);
    }
}

/// The numerator and denominator stand for `(whole + part / parts) / of` where
/// that is at most one, and for one where it is more.
pub proof fn fraction_is_the_share_done(f: Fraction)
    requires
        f.parts > 0,
        f.of > 0,
    ensures
        f.valid(),
        0 < f.denom(),
        f.whole * f.parts + f.part <= f.parts * f.of ==> f.numer() * (f.parts * f.of) == (f.whole
            * f.parts + f.part) * f.denom(),
        f.whole * f.parts + f.part > f.parts * f.of ==> f.numer() == f.denom(),
        f.complete() <==> f.whole * f.parts + f.part >= f.parts * f.of,
{
    fraction_is_between_zero_and_one(f);
}

/// Fractions compare as the numbers they stand for.
pub proof fn fractions_compare_as_numbers(a: Fraction, b: Fraction)
    requires
        a.parts > 0,
        a.of > 0,
        b.parts > 0,
        b.of > 0,
        a.whole * a.parts + a.part <= a.parts * a.of,
        b.whole * b.parts + b.part <= b.parts * b.of,
    ensures
        a.at_most(b) <==> (a.whole * a.parts + a.part) * (b.parts * b.of) <= (b.whole * b.parts
            + b.part) * (a.parts * a.of),
        a.at_most(b) || b.at_most(a),
{
}

} // verus!
