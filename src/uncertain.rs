use vstd::prelude::*;
use crate::decimal::{
    Decimal, PRECISION, in_range, lemma_pow10_pos, pow10, lemma_num_digits_pos, lemma_shrink_nonneg, magnitude, quantize, with_digits,
    with_max_digits,
};
use crate::primitive::{
    dec_add, dec_div, dec_mul, sqrt, exact, exact_product, exact_sum, product_of,
    quotient_of, root_of, sum_of,
};

verus! {

/// A measured quantity: a best estimate and one standard error.
#[derive(Clone, Copy, Debug, PartialEq, Eq, Structural)]
pub struct UncertainDecimal {
    pub value: Decimal,
    pub uncertainty: Decimal,
}

/// Why an operation produced no value.
#[derive(Clone, Copy, Debug, PartialEq, Eq, Structural)]
pub enum UncertainError {
    /// The text is not of the form `<value> ± <uncertainty>`.
    Malformed,
    /// A relative error was asked of a central value that is exactly zero.
    ZeroValue,
    /// Sample statistics need at least two measurements.
    TooFewSamples,
    /// A result does not fit a finite decimal128.
    Unrepresentable,
}

pub open spec fn opt_add(a: Option<Decimal>, b: Option<Decimal>) -> Option<Decimal> {
    match (a, b) {
        (Some(x), Some(y)) => sum_of(x, y),
        _ => None,
    }
}

pub open spec fn opt_mul(a: Option<Decimal>, b: Option<Decimal>) -> Option<Decimal> {
    match (a, b) {
        (Some(x), Some(y)) => product_of(x, y),
        _ => None,
    }
}

pub open spec fn opt_div(a: Option<Decimal>, b: Option<Decimal>) -> Option<Decimal> {
    match (a, b) {
        (Some(x), Some(y)) => quotient_of(x, y),
        _ => None,
    }
}

pub open spec fn opt_sqrt(a: Option<Decimal>) -> Option<Decimal> {
    match a {
        Some(x) => root_of(x),
        None => None,
    }
}

pub open spec fn opt_wf(a: Option<Decimal>) -> bool {
    a matches Some(x) ==> x.wf()
}

pub open spec fn opt_abs(a: Option<Decimal>) -> Option<Decimal> {
    match a {
        Some(x) => Some(x.spec_abs()),
        None => None,
    }
}

/// The value, if any, is non-negative.
pub open spec fn opt_nonneg(a: Option<Decimal>) -> bool {
    a matches Some(x) ==> x.coefficient >= 0
}

fn abs_opt(a: Option<Decimal>) -> (r: Option<Decimal>)
    requires
        opt_wf(a),
    ensures
        r == opt_abs(a),
        opt_wf(r),
        opt_nonneg(r),
{
    match a {
        Some(x) => Some(x.abs()),
        None => None,
    }
}

fn add_opt(a: Option<Decimal>, b: Option<Decimal>) -> (r: Option<Decimal>)
    requires
        opt_wf(a),
        opt_wf(b),
    ensures
        r == opt_add(a, b),
        opt_wf(r),
{
    match (a, b) {
        (Some(x), Some(y)) => dec_add(x, y),
        _ => None,
    }
}

fn mul_opt(a: Option<Decimal>, b: Option<Decimal>) -> (r: Option<Decimal>)
    requires
        opt_wf(a),
        opt_wf(b),
    ensures
        r == opt_mul(a, b),
        opt_wf(r),
{
    match (a, b) {
        (Some(x), Some(y)) => dec_mul(x, y),
        _ => None,
    }
}

fn div_opt(a: Option<Decimal>, b: Option<Decimal>) -> (r: Option<Decimal>)
    requires
        opt_wf(a),
        opt_wf(b),
    ensures
        r == opt_div(a, b),
        opt_wf(r),
{
    match (a, b) {
        (Some(x), Some(y)) => dec_div(x, y),
        _ => None,
    }
}

fn sqrt_opt(a: Option<Decimal>) -> (r: Option<Decimal>)
    requires
        opt_wf(a),
    ensures
        r == opt_sqrt(a),
        opt_wf(r),
        opt_nonneg(r),
        a is Some && opt_nonneg(a) ==> r is Some,
{
    match a {
        Some(x) => sqrt(x),
        None => None,
    }
}

/// `(u / v)^2`, computed as `u * u / v / v`.
pub open spec fn relative_square(u: Decimal, v: Decimal) -> Option<Decimal> {
    opt_div(opt_div(product_of(u, u), Some(v)), Some(v))
}

fn relative_square_exec(u: Decimal, v: Decimal) -> (r: Option<Decimal>)
    requires
        u.wf(),
        v.wf(),
    ensures
        r == relative_square(u, v),
        opt_wf(r),
{
    div_opt(div_opt(dec_mul(u, u), Some(v)), Some(v))
}

pub open spec fn zero() -> Decimal {
    Decimal { coefficient: 0, exponent: 0 }
}

pub open spec fn one() -> Decimal {
    Decimal { coefficient: 1, exponent: 0 }
}

pub open spec fn all_wf(s: Seq<UncertainDecimal>) -> bool {
    forall|i: int| 0 <= i < s.len() ==> (#[trigger] s[i]).wf()
}

/// The central values added in order, from zero.
pub open spec fn total_value(s: Seq<UncertainDecimal>) -> Option<Decimal>
    decreases s.len(),
{
    if s.len() == 0 {
        Some(zero())
    } else {
        opt_add(total_value(s.drop_last()), Some(s.last().value))
    }
}

/// The squared uncertainties added in order, from zero.
pub open spec fn total_variance(s: Seq<UncertainDecimal>) -> Option<Decimal>
    decreases s.len(),
{
    if s.len() == 0 {
        Some(zero())
    } else {
        opt_add(total_variance(s.drop_last()), product_of(s.last().uncertainty, s.last().uncertainty))
    }
}

/// The central values multiplied in order, from one.
pub open spec fn total_product(s: Seq<UncertainDecimal>) -> Option<Decimal>
    decreases s.len(),
{
    if s.len() == 0 {
        Some(one())
    } else {
        opt_mul(total_product(s.drop_last()), Some(s.last().value))
    }
}

/// The squared relative errors added in order, from zero.
pub open spec fn total_relative_variance(s: Seq<UncertainDecimal>) -> Option<Decimal>
    decreases s.len(),
{
    if s.len() == 0 {
        Some(zero())
    } else {
        opt_add(
            total_relative_variance(s.drop_last()),
            relative_square(s.last().uncertainty, s.last().value),
        )
    }
}

pub open spec fn pair_canonical(value: Option<Decimal>, uncertainty: Option<Decimal>) -> Option<
    UncertainDecimal,
> {
    match (value, uncertainty) {
        (Some(v), Some(u)) => UncertainDecimal { value: v, uncertainty: u }.spec_canonical(),
        _ => None,
    }
}

pub open spec fn spec_sum(s: Seq<UncertainDecimal>) -> Option<UncertainDecimal> {
    pair_canonical(total_value(s), opt_sqrt(total_variance(s)))
}

pub open spec fn spec_product(s: Seq<UncertainDecimal>) -> Option<UncertainDecimal> {
    pair_canonical(
        total_product(s),
        opt_abs(opt_mul(opt_sqrt(total_relative_variance(s)), total_product(s))),
    )
}

pub open spec fn has_zero_value(s: Seq<UncertainDecimal>) -> bool {
    exists|i: int| 0 <= i < s.len() && (#[trigger] s[i]).value.coefficient == 0
}

fn finish_pair(value: Option<Decimal>, uncertainty: Option<Decimal>) -> (r: Result<
    UncertainDecimal,
    UncertainError,
>)
    requires
        opt_wf(value),
        opt_wf(uncertainty),
    ensures
        r == or_unrepresentable(pair_canonical(value, uncertainty)),
        r matches Ok(y) ==> y.wf() && y.is_canonical(),
        opt_nonneg(uncertainty) ==> (r matches Ok(y) ==> y.uncertainty.coefficient >= 0),
{
    match (value, uncertainty) {
        (Some(v), Some(u)) => match (UncertainDecimal { value: v, uncertainty: u }).canonical() {
            Some(y) => Ok(y),
            None => Err(UncertainError::Unrepresentable),
        },
        _ => Err(UncertainError::Unrepresentable),
    }
}

pub open spec fn unit_at(e: i32) -> Decimal {
    Decimal { coefficient: 1, exponent: e }
}

pub open spec fn or_unrepresentable(o: Option<UncertainDecimal>) -> Result<
    UncertainDecimal,
    UncertainError,
> {
    match o {
        Some(x) => Ok(x),
        None => Err(UncertainError::Unrepresentable),
    }
}

impl UncertainDecimal {
    pub open spec fn wf(self) -> bool {
        self.value.wf() && self.uncertainty.wf()
    }

    /// One significant digit of uncertainty, and the value at the uncertainty's decimal place.
    pub open spec fn is_canonical(self) -> bool {
        &&& self.uncertainty.num_digits() == 1
        &&& self.value.exponent == self.uncertainty.exponent
    }

    pub open spec fn spec_canonical(self) -> Option<UncertainDecimal> {
        match self.uncertainty.spec_with_max_digits(1) {
            Some(u) => if self.value.exponent <= u.exponent {
                Some(
                    UncertainDecimal {
                        value: self.value.spec_quantize(u.exponent as int),
                        uncertainty: u,
                    },
                )
            } else {
                Some(UncertainDecimal { value: self.value, uncertainty: unit_at(self.value.exponent) })
            },
            None => None,
        }
    }

    /// Value rounded to `digits` significant digits, then canonicalized.
    pub open spec fn spec_assemble(value: Decimal, digits: nat, uncertainty: Decimal) -> Option<
        UncertainDecimal,
    > {
        match value.spec_with_digits(digits) {
            Some(v) => UncertainDecimal { value: v, uncertainty }.spec_canonical(),
            None => None,
        }
    }

    pub open spec fn spec_with_digits(self, digits: nat) -> Option<UncertainDecimal> {
        UncertainDecimal::spec_assemble(self.value, digits, self.uncertainty)
    }

    /// The smaller digit count of the two central values.
    pub open spec fn fewer_digits(self, rhs: UncertainDecimal) -> nat {
        if self.value.num_digits() <= rhs.value.num_digits() {
            self.value.num_digits()
        } else {
            rhs.value.num_digits()
        }
    }

    /// The root-sum-square combination of the two uncertainties.
    pub open spec fn spec_quadrature(self, rhs: UncertainDecimal) -> Option<Decimal> {
        opt_sqrt(
            opt_add(
                product_of(self.uncertainty, self.uncertainty),
                product_of(rhs.uncertainty, rhs.uncertainty),
            ),
        )
    }

    /// The root-sum-square of the two relative errors.
    pub open spec fn relative_quadrature(self, rhs: UncertainDecimal) -> Option<Decimal> {
        opt_sqrt(
            opt_add(
                relative_square(self.uncertainty, self.value),
                relative_square(rhs.uncertainty, rhs.value),
            ),
        )
    }

    pub open spec fn combine(
        value: Option<Decimal>,
        digits: nat,
        uncertainty: Option<Decimal>,
    ) -> Option<UncertainDecimal> {
        match (value, uncertainty) {
            (Some(v), Some(u)) => UncertainDecimal::spec_assemble(v, digits, u),
            _ => None,
        }
    }

    pub open spec fn spec_add(self, rhs: UncertainDecimal) -> Option<UncertainDecimal> {
        UncertainDecimal::combine(
            sum_of(self.value, rhs.value),
            self.fewer_digits(rhs),
            self.spec_quadrature(rhs),
        )
    }

    pub open spec fn spec_neg(self) -> UncertainDecimal {
        UncertainDecimal { value: self.value.spec_neg(), uncertainty: self.uncertainty }
    }

    pub open spec fn spec_mul(self, rhs: UncertainDecimal) -> Option<UncertainDecimal> {
        UncertainDecimal::combine(
            product_of(self.value, rhs.value),
            self.fewer_digits(rhs),
            opt_abs(
                opt_mul(opt_mul(self.relative_quadrature(rhs), Some(self.value)), Some(rhs.value)),
            ),
        )
    }

    pub open spec fn spec_div(self, rhs: UncertainDecimal) -> Option<UncertainDecimal> {
        UncertainDecimal::combine(
            quotient_of(self.value, rhs.value),
            self.fewer_digits(rhs),
            opt_abs(
                opt_div(opt_mul(self.relative_quadrature(rhs), Some(self.value)), Some(rhs.value)),
            ),
        )
    }

    /// Rounds the uncertainty to one significant digit (half-up) and the value to the
    /// same decimal place; where the value is coarser than that place, the uncertainty
    /// becomes one unit of the value's last place. `None` where the uncertainty's
    /// rounding passes the largest exponent.
    pub fn canonical(self) -> (r: Option<UncertainDecimal>)
        requires
            self.wf(),
        ensures
            r == self.spec_canonical(),
            r matches Some(y) ==> y.wf() && y.is_canonical(),
            self.uncertainty.coefficient >= 0 ==> (r matches Some(y) ==> y.uncertainty.coefficient
                >= 0),
    {
        proof {
            if self.uncertainty.coefficient >= 0 {
                lemma_shrink_nonneg(
                    self.uncertainty.coefficient as int,
                    self.uncertainty.exponent as int,
                    1,
                );
            }
        }
        match with_max_digits(self.uncertainty, 1) {
            Some(u) => {
                proof {
                    lemma_num_digits_pos(u.num_digits());
                    lemma_num_digits_pos(magnitude(u.coefficient as int));
                }
                if self.value.exponent <= u.exponent {
                    Some(
                        UncertainDecimal {
                            value: quantize(self.value, u.exponent),
                            uncertainty: u,
                        },
                    )
                } else {
                    Some(
                        UncertainDecimal {
                            value: self.value,
                            uncertainty: Decimal { coefficient: 1, exponent: self.value.exponent },
                        },
                    )
                }
            },
            None => None,
        }
    }

    /// Rounds `value` to `digits` significant digits and canonicalizes it with `uncertainty`.
    pub fn assemble(value: Decimal, digits: u32, uncertainty: Decimal) -> (r: Option<
        UncertainDecimal,
    >)
        requires
            value.wf(),
            uncertainty.wf(),
            1 <= digits <= PRECISION,
        ensures
            r == UncertainDecimal::spec_assemble(value, digits as nat, uncertainty),
            r matches Some(y) ==> y.wf() && y.is_canonical(),
            uncertainty.coefficient >= 0 ==> (r matches Some(y) ==> y.uncertainty.coefficient >= 0),
    {
        match with_digits(value, digits) {
            Some(v) => UncertainDecimal { value: v, uncertainty }.canonical(),
            None => None,
        }
    }

    /// Re-rounds the central value to `digits` significant digits, then canonicalizes.
    pub fn with_digits(self, digits: u32) -> (r: Option<UncertainDecimal>)
        requires
            self.wf(),
            1 <= digits <= PRECISION,
        ensures
            r == self.spec_with_digits(digits as nat),
            r matches Some(y) ==> y.wf() && y.is_canonical(),
            self.uncertainty.coefficient >= 0 ==> (r matches Some(y) ==> y.uncertainty.coefficient
                >= 0),
    {
        UncertainDecimal::assemble(self.value, digits, self.uncertainty)
    }

    fn fewer_digits_exec(self, rhs: UncertainDecimal) -> (r: u32)
        requires
            self.wf(),
            rhs.wf(),
        ensures
            r as nat == self.fewer_digits(rhs),
            1 <= r <= PRECISION,
    {
        let a = self.value.digits();
        let b = rhs.value.digits();
        if a <= b {
            a
        } else {
            b
        }
    }

    fn finish(value: Option<Decimal>, digits: u32, uncertainty: Option<Decimal>) -> (r: Result<
        UncertainDecimal,
        UncertainError,
    >)
        requires
            opt_wf(value),
            opt_wf(uncertainty),
            1 <= digits <= PRECISION,
        ensures
            r == or_unrepresentable(UncertainDecimal::combine(value, digits as nat, uncertainty)),
            r matches Ok(y) ==> y.wf() && y.is_canonical(),
            opt_nonneg(uncertainty) ==> (r matches Ok(y) ==> y.uncertainty.coefficient >= 0),
    {
        match (value, uncertainty) {
            (Some(v), Some(u)) => match UncertainDecimal::assemble(v, digits, u) {
                Some(y) => Ok(y),
                None => Err(UncertainError::Unrepresentable),
            },
            _ => Err(UncertainError::Unrepresentable),
        }
    }

    /// Sum of central values, cut to the fewer significant digits of the two, with the
    /// uncertainties combined in quadrature; canonicalized.
    pub fn add(self, rhs: UncertainDecimal) -> (r: Result<UncertainDecimal, UncertainError>)
        requires
            self.wf(),
            rhs.wf(),
        ensures
            r == or_unrepresentable(self.spec_add(rhs)),
            r matches Ok(y) ==> y.wf() && y.is_canonical(),
            r matches Ok(y) ==> y.uncertainty.coefficient >= 0,
    {
        let digits = self.fewer_digits_exec(rhs);
        let value = dec_add(self.value, rhs.value);
        UncertainDecimal::finish(value, digits, self.quadrature(rhs))
    }

    /// The combined uncertainty of a sum or difference before rounding:
    /// `sqrt(u1^2 + u2^2)`, the squares and their sum exact where they fit.
    pub fn quadrature(self, rhs: UncertainDecimal) -> (r: Option<Decimal>)
        requires
            self.wf(),
            rhs.wf(),
        ensures
            r == self.spec_quadrature(rhs),
            opt_wf(r),
            opt_nonneg(r),
            ({
                let p = exact_product(self.uncertainty, self.uncertainty);
                let q = exact_product(rhs.uncertainty, rhs.uncertainty);
                let t = exact_sum(exact(p), exact(q));
                in_range(p.0, p.1) && in_range(q.0, q.1) && in_range(t.0, t.1) ==> r == root_of(
                    exact(t),
                ) && r is Some
            }),
    {
        let a = dec_mul(self.uncertainty, self.uncertainty);
        let b = dec_mul(rhs.uncertainty, rhs.uncertainty);
        proof {
            let p = exact_product(self.uncertainty, self.uncertainty);
            let q = exact_product(rhs.uncertainty, rhs.uncertainty);
            let u1 = self.uncertainty.coefficient as int;
            let u2 = rhs.uncertainty.coefficient as int;
            assert(u1 * u1 >= 0) by (nonlinear_arith);
            assert(u2 * u2 >= 0) by (nonlinear_arith);
            let t = exact_sum(exact(p), exact(q));
            let m = t.1;
            let k1 = pow10((exact(p).exponent - m) as nat);
            let k2 = pow10((exact(q).exponent - m) as nat);
            lemma_pow10_pos((exact(p).exponent - m) as nat);
            lemma_pow10_pos((exact(q).exponent - m) as nat);
            if in_range(p.0, p.1) && in_range(q.0, q.1) {
                let c1 = exact(p).coefficient as int;
                let c2 = exact(q).coefficient as int;
                assert(c1 >= 0 && c2 >= 0);
                assert(c1 * k1 >= 0) by (nonlinear_arith)
                    requires
                        c1 >= 0,
                        k1 >= 1,
                ;
                assert(c2 * k2 >= 0) by (nonlinear_arith)
                    requires
                        c2 >= 0,
                        k2 >= 1,
                ;
                assert(t.0 >= 0);
            }
        }
        match (a, b) {
            (Some(x), Some(y)) => sqrt_opt(dec_add(x, y)),
            _ => None,
        }
    }

    /// The central value negated; the uncertainty kept.
    pub fn neg(self) -> (r: UncertainDecimal)
        requires
            self.wf(),
        ensures
            r == self.spec_neg(),
            r.wf(),
    {
        UncertainDecimal { value: self.value.neg(), uncertainty: self.uncertainty }
    }

    /// `self + (-rhs)`.
    pub fn sub(self, rhs: UncertainDecimal) -> (r: Result<UncertainDecimal, UncertainError>)
        requires
            self.wf(),
            rhs.wf(),
        ensures
            r == or_unrepresentable(self.spec_add(rhs.spec_neg())),
            r matches Ok(y) ==> y.wf() && y.is_canonical(),
            r matches Ok(y) ==> y.uncertainty.coefficient >= 0,
    {
        self.add(rhs.neg())
    }

    /// Product of central values, cut to the fewer significant digits of the two, with
    /// the relative errors combined in quadrature; a zero central value is refused.
    pub fn mul(self, rhs: UncertainDecimal) -> (r: Result<UncertainDecimal, UncertainError>)
        requires
            self.wf(),
            rhs.wf(),
        ensures
            self.value.coefficient == 0 || rhs.value.coefficient == 0 ==> r == Err::<
                UncertainDecimal,
                UncertainError,
            >(UncertainError::ZeroValue),
            self.value.coefficient != 0 && rhs.value.coefficient != 0 ==> r == or_unrepresentable(
                self.spec_mul(rhs),
            ),
            r matches Ok(y) ==> y.wf() && y.is_canonical(),
            r matches Ok(y) ==> y.uncertainty.coefficient >= 0,
    {
        if self.value.coefficient == 0 || rhs.value.coefficient == 0 {
            return Err(UncertainError::ZeroValue);
        }
        let digits = self.fewer_digits_exec(rhs);
        let value = dec_mul(self.value, rhs.value);
        let rel = sqrt_opt(
            add_opt(
                relative_square_exec(self.uncertainty, self.value),
                relative_square_exec(rhs.uncertainty, rhs.value),
            ),
        );
        let u = abs_opt(mul_opt(mul_opt(rel, Some(self.value)), Some(rhs.value)));
        UncertainDecimal::finish(value, digits, u)
    }

    /// Quotient of central values, cut to the fewer significant digits of the two, with
    /// the relative errors combined in quadrature; a zero central value is refused.
    pub fn div(self, rhs: UncertainDecimal) -> (r: Result<UncertainDecimal, UncertainError>)
        requires
            self.wf(),
            rhs.wf(),
        ensures
            self.value.coefficient == 0 || rhs.value.coefficient == 0 ==> r == Err::<
                UncertainDecimal,
                UncertainError,
            >(UncertainError::ZeroValue),
            self.value.coefficient != 0 && rhs.value.coefficient != 0 ==> r == or_unrepresentable(
                self.spec_div(rhs),
            ),
            r matches Ok(y) ==> y.wf() && y.is_canonical(),
            r matches Ok(y) ==> y.uncertainty.coefficient >= 0,
    {
        if self.value.coefficient == 0 || rhs.value.coefficient == 0 {
            return Err(UncertainError::ZeroValue);
        }
        let digits = self.fewer_digits_exec(rhs);
        let value = dec_div(self.value, rhs.value);
        let rel = sqrt_opt(
            add_opt(
                relative_square_exec(self.uncertainty, self.value),
                relative_square_exec(rhs.uncertainty, rhs.value),
            ),
        );
        let u = abs_opt(div_opt(mul_opt(rel, Some(self.value)), Some(rhs.value)));
        UncertainDecimal::finish(value, digits, u)
    }

    /// Sum of the central values with the uncertainties combined in quadrature,
    /// canonicalized; no values give `0 ± 0`.
    pub fn sum(items: &[UncertainDecimal]) -> (r: Result<UncertainDecimal, UncertainError>)
        requires
            all_wf(items@),
        ensures
            r == or_unrepresentable(spec_sum(items@)),
            r matches Ok(y) ==> y.wf() && y.is_canonical(),
            r matches Ok(y) ==> y.uncertainty.coefficient >= 0,
    {
        let mut value: Option<Decimal> = Some(Decimal { coefficient: 0, exponent: 0 });
        let mut variance: Option<Decimal> = Some(Decimal { coefficient: 0, exponent: 0 });
        let mut i: usize = 0;
        while i < items.len()
            invariant
                i <= items@.len(),
                all_wf(items@),
                opt_wf(value),
                opt_wf(variance),
                value == total_value(items@.subrange(0, i as int)),
                variance == total_variance(items@.subrange(0, i as int)),
            decreases items@.len() - i,
        {
            let item = items[i];
            assert(items@.subrange(0, i + 1).drop_last() =~= items@.subrange(0, i as int));
            value = add_opt(value, Some(item.value));
            variance = add_opt(variance, dec_mul(item.uncertainty, item.uncertainty));
            i = i + 1;
        }
        assert(items@.subrange(0, items@.len() as int) =~= items@);
        finish_pair(value, sqrt_opt(variance))
    }

    /// Product of the central values with the relative errors combined in quadrature
    /// (the sum of squared relative errors starts at zero), scaled by the product and
    /// canonicalized; a zero central value is refused; no values give `1 ± 0`.
    pub fn product(items: &[UncertainDecimal]) -> (r: Result<UncertainDecimal, UncertainError>)
        requires
            all_wf(items@),
        ensures
            has_zero_value(items@) ==> r == Err::<UncertainDecimal, UncertainError>(
                UncertainError::ZeroValue,
            ),
            !has_zero_value(items@) ==> r == or_unrepresentable(spec_product(items@)),
            r matches Ok(y) ==> y.wf() && y.is_canonical(),
            r matches Ok(y) ==> y.uncertainty.coefficient >= 0,
    {
        let mut value: Option<Decimal> = Some(Decimal { coefficient: 1, exponent: 0 });
        let mut variance: Option<Decimal> = Some(Decimal { coefficient: 0, exponent: 0 });
        let mut i: usize = 0;
        while i < items.len()
            invariant
                i <= items@.len(),
                all_wf(items@),
                opt_wf(value),
                opt_wf(variance),
                forall|j: int| 0 <= j < i ==> (#[trigger] items@[j]).value.coefficient != 0,
                value == total_product(items@.subrange(0, i as int)),
                variance == total_relative_variance(items@.subrange(0, i as int)),
            decreases items@.len() - i,
        {
            let item = items[i];
            if item.value.coefficient == 0 {
                return Err(UncertainError::ZeroValue);
            }
            assert(items@.subrange(0, i + 1).drop_last() =~= items@.subrange(0, i as int));
            value = mul_opt(value, Some(item.value));
            variance = add_opt(variance, relative_square_exec(item.uncertainty, item.value));
            i = i + 1;
        }
        assert(items@.subrange(0, items@.len() as int) =~= items@);
        finish_pair(value, abs_opt(mul_opt(sqrt_opt(variance), value)))
    }
}

} // verus!
