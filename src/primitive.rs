use vstd::prelude::*;
use crate::decimal::{Decimal, in_range, pow10};
use dec::{Context, Decimal128, Rounding};
use std::str::FromStr;

verus! {

/// The aligned exact sum `a + b` at the finer of the two exponents.
pub open spec fn exact_sum(a: Decimal, b: Decimal) -> (int, int) {
    let m = if a.exponent <= b.exponent {
        a.exponent as int
    } else {
        b.exponent as int
    };
    (
        a.coefficient * pow10((a.exponent - m) as nat) + b.coefficient * pow10(
            (b.exponent - m) as nat,
        ),
        m,
    )
}

/// The exact product `a * b`.
pub open spec fn exact_product(a: Decimal, b: Decimal) -> (int, int) {
    (a.coefficient * b.coefficient, a.exponent + b.exponent)
}

pub open spec fn exact(p: (int, int)) -> Decimal {
    Decimal { coefficient: p.0 as i128, exponent: p.1 as i32 }
}

/// What decimal128 addition gives (`None` where it is not finite).
pub uninterp spec fn sum_of(a: Decimal, b: Decimal) -> Option<Decimal>;

/// What decimal128 subtraction gives (`None` where it is not finite).
pub uninterp spec fn difference_of(a: Decimal, b: Decimal) -> Option<Decimal>;

/// What decimal128 multiplication gives (`None` where it is not finite).
pub uninterp spec fn product_of(a: Decimal, b: Decimal) -> Option<Decimal>;

/// What decimal128 division gives (`None` where it is not finite).
pub uninterp spec fn quotient_of(a: Decimal, b: Decimal) -> Option<Decimal>;

/// The square root at 36 working digits (twelve three-digit units), read back as a decimal128.
pub uninterp spec fn root_of(a: Decimal) -> Option<Decimal>;

/// What decimal128 parsing makes of a text.
pub uninterp spec fn parsed_decimal(s: Seq<char>) -> Option<Decimal>;

/// The scientific text form of a decimal128.
pub uninterp spec fn rendered(d: Decimal) -> Seq<char>;

/// The characters of a scientific text form of a finite number.
pub open spec fn sci_char(c: char) -> bool {
    ('0' <= c && c <= '9') || c == '.' || c == 'E' || c == '+' || c == '-'
}

/// Relies on `<Decimal128 as Add>::add` (decQuadAdd): exact where the aligned sum fits.
#[verifier::external_body]
pub(crate) fn dec_add(a: Decimal, b: Decimal) -> (r: Option<Decimal>)
    requires
        a.wf(),
        b.wf(),
    ensures
        r == sum_of(a, b),
        r matches Some(x) ==> x.wf(),
        in_range(exact_sum(a, b).0, exact_sum(a, b).1) ==> r == Some(exact(exact_sum(a, b))),
{
    let x = Decimal128::from_str(&format!("{}E{}", a.coefficient, a.exponent)).unwrap();
    let y = Decimal128::from_str(&format!("{}E{}", b.coefficient, b.exponent)).unwrap();
    let z = x + y;
    if z.is_finite() {
        Some(Decimal { coefficient: z.coefficient(), exponent: z.exponent() })
    } else {
        None
    }
}

/// Relies on `<Decimal128 as Sub>::sub` (decQuadSubtract): exact where the aligned difference fits.
#[verifier::external_body]
pub(crate) fn dec_sub(a: Decimal, b: Decimal) -> (r: Option<Decimal>)
    requires
        a.wf(),
        b.wf(),
    ensures
        r == difference_of(a, b),
        r matches Some(x) ==> x.wf(),
        in_range(exact_sum(a, b.spec_neg()).0, exact_sum(a, b.spec_neg()).1) ==> r == Some(
            exact(exact_sum(a, b.spec_neg())),
        ),
{
    let x = Decimal128::from_str(&format!("{}E{}", a.coefficient, a.exponent)).unwrap();
    let y = Decimal128::from_str(&format!("{}E{}", b.coefficient, b.exponent)).unwrap();
    let z = x - y;
    if z.is_finite() {
        Some(Decimal { coefficient: z.coefficient(), exponent: z.exponent() })
    } else {
        None
    }
}

/// Relies on `<Decimal128 as Mul>::mul` (decQuadMultiply): exact where the product fits.
#[verifier::external_body]
pub(crate) fn dec_mul(a: Decimal, b: Decimal) -> (r: Option<Decimal>)
    requires
        a.wf(),
        b.wf(),
    ensures
        r == product_of(a, b),
        r matches Some(x) ==> x.wf(),
        in_range(exact_product(a, b).0, exact_product(a, b).1) ==> r == Some(
            exact(exact_product(a, b)),
        ),
{
    let x = Decimal128::from_str(&format!("{}E{}", a.coefficient, a.exponent)).unwrap();
    let y = Decimal128::from_str(&format!("{}E{}", b.coefficient, b.exponent)).unwrap();
    let z = x * y;
    if z.is_finite() {
        Some(Decimal { coefficient: z.coefficient(), exponent: z.exponent() })
    } else {
        None
    }
}

/// Relies on `<Decimal128 as Div>::div` (decQuadDivide); a zero divisor gives no finite result,
/// and an exact quotient comes at the ideal exponent `ea - eb`.
#[verifier::external_body]
pub(crate) fn dec_div(a: Decimal, b: Decimal) -> (r: Option<Decimal>)
    requires
        a.wf(),
        b.wf(),
    ensures
        r == quotient_of(a, b),
        r matches Some(x) ==> x.wf(),
        b.coefficient == 0 ==> r is None,
        b.coefficient != 0 && a.coefficient % b.coefficient == 0 && in_range(
            a.coefficient / b.coefficient,
            a.exponent - b.exponent,
        ) ==> r == Some(
            Decimal {
                coefficient: (a.coefficient / b.coefficient) as i128,
                exponent: (a.exponent - b.exponent) as i32,
            },
        ),
{
    let x = Decimal128::from_str(&format!("{}E{}", a.coefficient, a.exponent)).unwrap();
    let y = Decimal128::from_str(&format!("{}E{}", b.coefficient, b.exponent)).unwrap();
    let z = x / y;
    if z.is_finite() {
        Some(Decimal { coefficient: z.coefficient(), exponent: z.exponent() })
    } else {
        None
    }
}

/// Square root at a working precision wider than decimal128's.
/// Relies on `Context::<Decimal<12>>::sqrt` (decNumberSquareRoot, rounding half-up),
/// with the result read back through its text form by `Decimal128::from_str`: the root of
/// a non-negative number is finite and non-negative; that of a negative one is NaN.
#[verifier::external_body]
pub fn sqrt(a: Decimal) -> (r: Option<Decimal>)
    requires
        a.wf(),
    ensures
        r == root_of(a),
        r matches Some(x) ==> x.wf() && x.coefficient >= 0,
        a.coefficient >= 0 ==> r is Some,
{
    let mut cx = Context::<dec::Decimal<12>>::default();
    cx.set_rounding(Rounding::HalfUp);
    let x = Decimal128::from_str(&format!("{}E{}", a.coefficient, a.exponent)).unwrap();
    let mut w: dec::Decimal<12> = x.into();
    cx.sqrt::<12>(&mut w);
    match Decimal128::from_str(&w.to_string()) {
        Ok(z) if z.is_finite() => Some(Decimal { coefficient: z.coefficient(), exponent: z.exponent() }),
        _ => None,
    }
}

/// Relies on `Decimal128::from_str` (decQuadFromString): `None` where the text is no finite number.
#[verifier::external_body]
pub(crate) fn parse_decimal(s: &str) -> (r: Option<Decimal>)
    ensures
        r == parsed_decimal(s@),
        r matches Some(x) ==> x.wf(),
{
    match Decimal128::from_str(s) {
        Ok(z) if z.is_finite() => Some(Decimal { coefficient: z.coefficient(), exponent: z.exponent() }),
        _ => None,
    }
}

/// Relies on `<Decimal128 as Display>::fmt` (decQuadToString): the scientific form, made of
/// digits, point, sign and `E`, which `Decimal128::from_str` reads back to the same
/// coefficient and exponent.
#[verifier::external_body]
pub(crate) fn render(d: Decimal) -> (r: String)
    requires
        d.wf(),
    ensures
        r@ == rendered(d),
        r@.len() > 0,
        forall|i: int| 0 <= i < r@.len() ==> sci_char(#[trigger] r@[i]),
        parsed_decimal(r@) == Some(d),
{
    Decimal128::from_str(&format!("{}E{}", d.coefficient, d.exponent)).unwrap().to_string()
}

} // verus!
