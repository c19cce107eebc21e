//! Exact quotients for rates and averages.
use vstd::prelude::*;

verus! {

/// A non-negative fraction. Rates and averages are kept as the two whole
/// numbers that they are the quotient of, so that nothing is lost to rounding.
#[derive(Clone, Copy, Debug, PartialEq, Eq, Structural)]
pub struct Ratio {
    pub numer: u128,
    pub denom: u128,
}

/// `a / b = n / d`, without division.
pub open spec fn same_quotient(a: int, b: int, n: int, d: int) -> bool {
    a * d == n * b
}

impl Ratio {
    /// The fraction is a number: its denominator is not zero.
    pub open spec fn wf(self) -> bool {
        self.denom > 0
    }

    /// The fraction has the value `n / d`.
    pub open spec fn is(self, n: int, d: int) -> bool {
        &&& self.wf()
        &&& d != 0
        &&& same_quotient(self.numer as int, self.denom as int, n, d)
    }

    /// What `numer / denom` is taken to be: zero where nothing was counted.
    pub open spec fn of_spec(numer: int, denom: int) -> Ratio {
        if denom == 0 {
            Ratio { numer: 0, denom: 1 }
        } else {
            Ratio { numer: numer as u128, denom: denom as u128 }
        }
    }

    /// The quotient of two counts, zero where nothing was counted.
    pub fn of(numer: u128, denom: u128) -> (r: Ratio)
        ensures
            r == Ratio::of_spec(numer as int, denom as int),
            r.wf(),
            denom != 0 ==> r.is(numer as int, denom as int),
            denom == 0 ==> r.is(0, 1),
    {
        if denom == 0 {
            Ratio { numer: 0, denom: 1 }
        } else {
            Ratio { numer, denom }
        }
    }
}

/// A quotient times what it was divided by is what was divided; where nothing was
/// counted it is zero. The quotient of equal counts is one.
pub proof fn quotients_are_what_they_are_of(numer: u128, denom: u128)
    ensures
        denom > 0 ==> Ratio::of_spec(numer as int, denom as int).numer * denom == numer
            * Ratio::of_spec(numer as int, denom as int).denom,
        denom > 0 && numer > 0 ==> Ratio::of_spec(numer as int, denom as int).numer > 0,
        Ratio::of_spec(numer as int, 0).numer == 0,
        Ratio::of_spec(numer as int, denom as int).wf(),
        denom > 0 ==> Ratio::of_spec(denom as int, denom as int).is(1, 1),
{
}

/// A fraction that is expanded keeps its value.
pub proof fn quotients_can_be_expanded(r: Ratio, n: int, d: int, k: int)
    requires
        r.is(n, d),
        k != 0,
    ensures
        r.is(n * k, d * k),
        same_quotient(n, d, r.numer as int, r.denom as int),
{
    let a = r.numer as int;
    let b = r.denom as int;
    assert(a * (d * k) == (n * k) * b) by (nonlinear_arith)
        requires
            a * d == n * b,
    ;
    assert(d * k != 0) by (nonlinear_arith)
        requires
            d != 0,
            k != 0,
    ;
    assert(n * b == a * d);
}

} // verus!
