use vstd::prelude::*;
use crate::decimal::Decimal;
use crate::primitive::{dec_add, dec_div, dec_mul, sqrt, dec_sub, difference_of};
use crate::uncertain::{
    UncertainDecimal, UncertainError, opt_add, opt_div, opt_mul, opt_sqrt, opt_wf,
    or_unrepresentable, pair_canonical, zero,
};

verus! {

pub open spec fn all_decimals_wf(s: Seq<Decimal>) -> bool {
    forall|i: int| 0 <= i < s.len() ==> (#[trigger] s[i]).wf()
}

/// The measurements added in order, from zero.
pub open spec fn total(s: Seq<Decimal>) -> Option<Decimal>
    decreases s.len(),
{
    if s.len() == 0 {
        Some(zero())
    } else {
        opt_add(total(s.drop_last()), Some(s.last()))
    }
}

/// The squared deviations from `mean` added in order, from zero.
pub open spec fn squared_deviations(s: Seq<Decimal>, mean: Decimal) -> Option<Decimal>
    decreases s.len(),
{
    if s.len() == 0 {
        Some(zero())
    } else {
        let d = difference_of(s.last(), mean);
        opt_add(squared_deviations(s.drop_last(), mean), opt_mul(d, d))
    }
}

/// The integer `n` as a decimal with exponent zero.
pub open spec fn count_of(n: int) -> Decimal {
    Decimal { coefficient: n as i128, exponent: 0 }
}

pub open spec fn spec_mean(s: Seq<Decimal>) -> Option<Decimal> {
    opt_div(total(s), Some(count_of(s.len() as int)))
}

/// Mean and Bessel-corrected sample standard deviation, canonicalized.
pub open spec fn spec_average(s: Seq<Decimal>) -> Option<UncertainDecimal> {
    match spec_mean(s) {
        Some(m) => pair_canonical(
            Some(m),
            opt_sqrt(opt_div(squared_deviations(s, m), Some(count_of(s.len() - 1)))),
        ),
        None => None,
    }
}

/// Builds `mean ± sample standard deviation` (divisor `n - 1`) from plain measurements;
/// fewer than two measurements are refused.
pub fn average(decs: &[Decimal]) -> (r: Result<UncertainDecimal, UncertainError>)
    requires
        all_decimals_wf(decs@),
    ensures
        decs@.len() < 2 ==> r == Err::<UncertainDecimal, UncertainError>(
            UncertainError::TooFewSamples,
        ),
        decs@.len() >= 2 ==> r == or_unrepresentable(spec_average(decs@)),
        r matches Ok(y) ==> y.wf() && y.is_canonical(),
        r matches Ok(y) ==> y.uncertainty.coefficient >= 0,
{
    let n = decs.len();
    if n < 2 {
        return Err(UncertainError::TooFewSamples);
    }
    let mut sum: Option<Decimal> = Some(Decimal { coefficient: 0, exponent: 0 });
    let mut i: usize = 0;
    while i < n
        invariant
            n == decs@.len(),
            i <= n,
            all_decimals_wf(decs@),
            opt_wf(sum),
            sum == total(decs@.subrange(0, i as int)),
        decreases n - i,
    {
        assert(decs@.subrange(0, i + 1).drop_last() =~= decs@.subrange(0, i as int));
        sum = match sum {
            Some(s) => dec_add(s, decs[i]),
            None => None,
        };
        i = i + 1;
    }
    assert(decs@.subrange(0, n as int) =~= decs@);
    let count = Decimal { coefficient: n as i128, exponent: 0 };
    let mean = match sum {
        Some(s) => dec_div(s, count),
        None => None,
    };
    let mean = match mean {
        Some(m) => m,
        None => {
            return Err(UncertainError::Unrepresentable);
        },
    };
    let mut squares: Option<Decimal> = Some(Decimal { coefficient: 0, exponent: 0 });
    let mut j: usize = 0;
    while j < n
        invariant
            n == decs@.len(),
            j <= n,
            all_decimals_wf(decs@),
            mean.wf(),
            opt_wf(squares),
            squares == squared_deviations(decs@.subrange(0, j as int), mean),
        decreases n - j,
    {
        assert(decs@.subrange(0, j + 1).drop_last() =~= decs@.subrange(0, j as int));
        let d = dec_sub(decs[j], mean);
        let sq = match d {
            Some(x) => dec_mul(x, x),
            None => None,
        };
        squares = match (squares, sq) {
            (Some(a), Some(b)) => dec_add(a, b),
            _ => None,
        };
        j = j + 1;
    }
    assert(decs@.subrange(0, n as int) =~= decs@);
    let dof = Decimal { coefficient: (n - 1) as i128, exponent: 0 };
    let variance = match squares {
        Some(q) => dec_div(q, dof),
        None => None,
    };
    let deviation = match variance {
        Some(v) => sqrt(v),
        None => None,
    };
    match deviation {
        Some(u) => match (UncertainDecimal { value: mean, uncertainty: u }).canonical() {
            Some(y) => Ok(y),
            None => Err(UncertainError::Unrepresentable),
        },
        None => Err(UncertainError::Unrepresentable),
    }
}

} // verus!
