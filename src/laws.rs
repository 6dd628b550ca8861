use vstd::prelude::*;
use crate::decimal::{
    lemma_num_digits_pos, lemma_quantize_in_range, lemma_shrink_digits, magnitude, pow10,
};
use crate::uncertain::UncertainDecimal;

verus! {

/// What canonicalization gives is well formed and canonical.
proof fn lemma_canonical_shape(x: UncertainDecimal)
    requires
        x.wf(),
    ensures
        x.spec_canonical() matches Some(y) ==> y.wf() && y.is_canonical(),
{
    let u0 = x.uncertainty;
    lemma_shrink_digits(u0.coefficient as int, u0.exponent as int, 1);
    if let Some(u) = u0.spec_with_max_digits(1) {
        lemma_num_digits_pos(magnitude(u.coefficient as int));
        if x.value.exponent <= u.exponent {
            lemma_quantize_in_range(x.value, u.exponent as int);
        }
    }
}

/// A canonical pair is left as it is by canonicalization.
proof fn lemma_canonical_fixed(y: UncertainDecimal)
    requires
        y.wf(),
        y.is_canonical(),
    ensures
        y.spec_canonical() == Some(y),
{
    assert(pow10(0) == 1);
    assert(y.uncertainty.spec_with_max_digits(1) == Some(y.uncertainty));
    assert(y.value.spec_quantize(y.uncertainty.exponent as int) == y.value);
}

/// Canonicalization is idempotent: canonicalizing its result again changes nothing.
pub proof fn lemma_canonical_idempotent(x: UncertainDecimal)
    requires
        x.wf(),
    ensures
        x.spec_canonical() matches Some(y) ==> y.spec_canonical() == x.spec_canonical(),
{
    lemma_canonical_shape(x);
    if let Some(y) = x.spec_canonical() {
        lemma_canonical_fixed(y);
    }
}

/// A canonical result carries exactly one significant digit of uncertainty; where the
/// value is coarser than that digit, the uncertainty is one unit of the value's last place.
pub proof fn lemma_canonical_one_digit(x: UncertainDecimal)
    requires
        x.wf(),
    ensures
        x.spec_canonical() matches Some(y) ==> y.uncertainty.num_digits() == 1,
        x.spec_canonical() matches Some(y) ==> (x.value.exponent
            > x.uncertainty.spec_with_max_digits(1)->0.exponent ==> y.uncertainty.coefficient == 1
            && y.uncertainty.exponent == x.value.exponent),
{
    lemma_canonical_shape(x);
}

/// A canonical result has its value and its uncertainty at the same decimal place.
pub proof fn lemma_canonical_aligned(x: UncertainDecimal)
    requires
        x.wf(),
    ensures
        x.spec_canonical() matches Some(y) ==> y.value.exponent == y.uncertainty.exponent,
{
    lemma_canonical_shape(x);
}

} // verus!
