use vstd::prelude::*;
use vstd::arithmetic::div_mod::{lemma_basic_div, lemma_div_is_ordered_by_denominator};

verus! {

/// Number of digits a decimal128 coefficient holds.
pub const PRECISION: u32 = 34;

/// One more than the largest coefficient magnitude (ten to the power `PRECISION`).
pub const COEFF_LIMIT: i128 = 10_000_000_000_000_000_000_000_000_000_000_000;

/// Smallest exponent of a finite decimal128 value.
pub const EMIN: i32 = -6176;

/// Largest exponent of a finite decimal128 value.
pub const EMAX: i32 = 6111;

/// A finite decimal number `coefficient * 10^exponent`, as a decimal128 stores it:
/// the exponent is kept as it is (trailing zeros are significant).
#[derive(Clone, Copy, Debug, PartialEq, Eq, Structural)]
pub struct Decimal {
    pub coefficient: i128,
    pub exponent: i32,
}

pub open spec fn magnitude(c: int) -> nat {
    if c < 0 {
        (-c) as nat
    } else {
        c as nat
    }
}

pub open spec fn pow10(k: nat) -> nat
    decreases k,
{
    if k == 0 {
        1
    } else {
        10 * pow10((k - 1) as nat)
    }
}

/// Number of decimal digits of `n`; zero has one digit.
pub open spec fn num_digits(n: nat) -> nat
    decreases n,
{
    if n < 10 {
        1
    } else {
        1 + num_digits(n / 10)
    }
}

/// `c / p` rounded to the nearest integer, ties away from zero (round-half-up).
pub open spec fn round_half_up(c: int, p: nat) -> int
    recommends
        p > 0,
{
    if c < 0 {
        -((-c + p / 2) / (p as int))
    } else {
        (c + p / 2) / (p as int)
    }
}

/// Drop one digit at a time, rounding half-up at each step, until at most `d` digits remain.
pub open spec fn shrink(c: int, e: int, d: nat) -> (int, int)
    decreases magnitude(c),
{
    if d >= 1 && num_digits(magnitude(c)) > d && magnitude(c) >= 10 {
        shrink(round_half_up(c, 10), e + 1, d)
    } else {
        (c, e)
    }
}

/// Append zeros until `d` digits stand; zero has no digits to extend and stays as it is.
pub open spec fn grow(c: int, e: int, d: nat) -> (int, int) {
    if c != 0 && num_digits(magnitude(c)) < d {
        let k = (d - num_digits(magnitude(c))) as nat;
        (c * pow10(k), e - k)
    } else {
        (c, e)
    }
}

pub open spec fn in_range(c: int, e: int) -> bool {
    -COEFF_LIMIT < c < COEFF_LIMIT && EMIN <= e <= EMAX
}

pub open spec fn from_pair(p: (int, int)) -> Option<Decimal> {
    if in_range(p.0, p.1) {
        Some(Decimal { coefficient: p.0 as i128, exponent: p.1 as i32 })
    } else {
        None
    }
}

impl Decimal {
    pub open spec fn wf(self) -> bool {
        in_range(self.coefficient as int, self.exponent as int)
    }

    pub open spec fn num_digits(self) -> nat {
        num_digits(magnitude(self.coefficient as int))
    }

    pub open spec fn spec_with_max_digits(self, d: nat) -> Option<Decimal> {
        from_pair(shrink(self.coefficient as int, self.exponent as int, d))
    }

    pub open spec fn spec_with_min_digits(self, d: nat) -> Option<Decimal> {
        from_pair(grow(self.coefficient as int, self.exponent as int, d))
    }

    pub open spec fn spec_with_digits(self, d: nat) -> Option<Decimal> {
        match self.spec_with_min_digits(d) {
            Some(x) => x.spec_with_max_digits(d),
            None => None,
        }
    }

    /// The value rounded half-up to the place `10^e` (for `e` no finer than the value's own).
    pub open spec fn spec_quantize(self, e: int) -> Decimal {
        Decimal {
            coefficient: round_half_up(
                self.coefficient as int,
                pow10((e - self.exponent) as nat),
            ) as i128,
            exponent: e as i32,
        }
    }

    pub open spec fn spec_neg(self) -> Decimal {
        Decimal { coefficient: (-self.coefficient) as i128, exponent: self.exponent }
    }

    pub open spec fn spec_abs(self) -> Decimal {
        Decimal { coefficient: magnitude(self.coefficient as int) as i128, exponent: self.exponent }
    }

    /// The magnitude: the coefficient without its sign, the exponent kept.
    pub fn abs(self) -> (r: Decimal)
        requires
            self.wf(),
        ensures
            r == self.spec_abs(),
            r.wf(),
            r.coefficient >= 0,
    {
        if self.coefficient < 0 {
            Decimal { coefficient: -self.coefficient, exponent: self.exponent }
        } else {
            self
        }
    }

    /// The same number of digits, the sign turned.
    pub fn neg(self) -> (r: Decimal)
        requires
            self.wf(),
        ensures
            r == self.spec_neg(),
            r.wf(),
    {
        Decimal { coefficient: -self.coefficient, exponent: self.exponent }
    }

    /// The number of significant digits of the coefficient (one for zero).
    pub fn digits(&self) -> (r: u32)
        requires
            self.wf(),
        ensures
            r as nat == self.num_digits(),
            1 <= r <= PRECISION,
    {
        count_digits(self.coefficient)
    }
}

/// The number of decimal digits of `c`'s magnitude (one for zero).
fn count_digits(c: i128) -> (r: u32)
    requires
        -COEFF_LIMIT < c < COEFF_LIMIT,
    ensures
        r as nat == num_digits(magnitude(c as int)),
        1 <= r <= PRECISION,
{
    let m0: u128 = if c < 0 {
        (-c) as u128
    } else {
        c as u128
    };
    let mut m: u128 = m0;
    let mut n: u32 = 1;
    proof {
        lemma_pow10_34();
        lemma_digits_bound(m0 as nat, 34);
    }
    while m >= 10
        invariant
            num_digits(m0 as nat) == n - 1 + num_digits(m as nat),
            num_digits(m0 as nat) <= 34,
            1 <= n,
        decreases m,
    {
        m = m / 10;
        n = n + 1;
    }
    n
}

/// Ten to the power `k`, for the powers a coefficient can hold.
fn pow10_exec(k: u32) -> (r: i128)
    requires
        k <= PRECISION,
    ensures
        r as int == pow10(k as nat),
{
    let mut r: i128 = 1;
    let mut i: u32 = 0;
    while i < k
        invariant
            i <= k <= PRECISION,
            r as int == pow10(i as nat),
        decreases k - i,
    {
        proof {
            assert(pow10((i + 1) as nat) == 10 * pow10(i as nat));
            lemma_pow10_mono((i + 1) as nat, 34);
            lemma_pow10_34();
        }
        r = r * 10;
        i = i + 1;
    }
    r
}

/// The coefficient one place coarser: its last digit dropped, rounded half-up.
fn round_off_digit(c: i128) -> (r: i128)
    requires
        -COEFF_LIMIT < c < COEFF_LIMIT,
    ensures
        r as int == round_half_up(c as int, 10),
        magnitude(r as int) <= magnitude(c as int),
        magnitude(c as int) >= 10 ==> magnitude(r as int) < magnitude(c as int),
{
    if c < 0 {
        -((-c + 5) / 10)
    } else {
        (c + 5) / 10
    }
}

/// Keeps at most `digits` significant digits, dropping one digit at a time and
/// rounding half-up at each step; `None` where the exponent would pass `EMAX`.
pub fn with_max_digits(dec: Decimal, digits: u32) -> (r: Option<Decimal>)
    requires
        dec.wf(),
        digits >= 1,
    ensures
        r == dec.spec_with_max_digits(digits as nat),
        r matches Some(x) ==> x.wf() && x.num_digits() <= digits,
{
    let mut c: i128 = dec.coefficient;
    let mut e: i32 = dec.exponent;
    while count_digits(c) > digits
        invariant
            in_range(c as int, e as int),
            digits >= 1,
            shrink(c as int, e as int, digits as nat) == shrink(
                dec.coefficient as int,
                dec.exponent as int,
                digits as nat,
            ),
        decreases magnitude(c as int),
    {
        assert(magnitude(c as int) >= 10);
        if e == EMAX {
            proof {
                lemma_shrink_exponent(round_half_up(c as int, 10), e + 1, digits as nat);
            }
            return None;
        }
        c = round_off_digit(c);
        e = e + 1;
    }
    Some(Decimal { coefficient: c, exponent: e })
}

/// Pads to at least `digits` significant digits, appending one zero at a time;
/// zero is left as it is; `None` where the exponent would pass `EMIN`.
pub fn with_min_digits(dec: Decimal, digits: u32) -> (r: Option<Decimal>)
    requires
        dec.wf(),
        digits <= PRECISION,
    ensures
        r == dec.spec_with_min_digits(digits as nat),
        r matches Some(x) ==> x.wf() && (dec.coefficient != 0 ==> x.num_digits() >= digits),
{
    if dec.coefficient == 0 {
        return Some(dec);
    }
    let ghost c0 = dec.coefficient as int;
    let ghost n0 = dec.num_digits();
    let mut c: i128 = dec.coefficient;
    let mut e: i32 = dec.exponent;
    let mut n: u32 = dec.digits();
    assert(pow10(0) == 1);
    assert(c0 * pow10(0) == c0);
    while n < digits
        invariant
            in_range(c as int, e as int),
            digits <= PRECISION,
            c0 == dec.coefficient as int,
            c0 != 0,
            c != 0,
            n0 == num_digits(magnitude(c0)),
            n as nat == num_digits(magnitude(c as int)),
            n >= n0,
            n == n0 || n <= digits,
            c as int == c0 * pow10((n - n0) as nat),
            e as int == dec.exponent as int - (n - n0),
        decreases digits - n,
    {
        let ghost k = (n - n0) as nat;
        proof {
            assert(pow10(k + 1) == 10 * pow10(k));
            assert(c0 * pow10(k + 1) == (c0 * pow10(k)) * 10) by (nonlinear_arith)
                requires
                    pow10(k + 1) == 10 * pow10(k),
            ;
        }
        if e == EMIN {
            assert(grow(c0, dec.exponent as int, digits as nat).1 < EMIN);
            assert(!in_range(
                grow(c0, dec.exponent as int, digits as nat).0,
                grow(c0, dec.exponent as int, digits as nat).1,
            ));
            return None;
        }
        proof {
            lemma_below_pow10(magnitude(c as int));
            lemma_pow10_mono((n + 1) as nat, 34);
            lemma_pow10_34();
            assert(pow10((n + 1) as nat) == 10 * pow10(n as nat));
            assert(magnitude(c as int) != 0);
            lemma_digits_times10(magnitude(c as int));
            assert(magnitude(c as int * 10) == magnitude(c as int) * 10);
        }
        c = c * 10;
        e = e - 1;
        n = n + 1;
    }
    proof {
        if n == n0 {
            assert(c0 * pow10(0) == c0);
            assert(grow(c0, dec.exponent as int, digits as nat) == (c0, dec.exponent as int));
        } else {
            assert(grow(c0, dec.exponent as int, digits as nat) == (c as int, e as int));
        }
    }
    Some(Decimal { coefficient: c, exponent: e })
}

/// Exactly `digits` significant digits: padded, then rounded half-up one digit at a time.
pub fn with_digits(dec: Decimal, digits: u32) -> (r: Option<Decimal>)
    requires
        dec.wf(),
        1 <= digits <= PRECISION,
    ensures
        r == dec.spec_with_digits(digits as nat),
        r matches Some(x) ==> x.wf(),
{
    match with_min_digits(dec, digits) {
        Some(x) => with_max_digits(x, digits),
        None => None,
    }
}

/// Rounds half-up to the place `10^exponent`, which is no finer than the value's own.
pub fn quantize(dec: Decimal, exponent: i32) -> (r: Decimal)
    requires
        dec.wf(),
        dec.exponent <= exponent <= EMAX,
    ensures
        r == dec.spec_quantize(exponent as int),
        r.wf(),
{
    let k: u32 = (exponent - dec.exponent) as u32;
    proof {
        lemma_quantize_in_range(dec, exponent as int);
        lemma_pow10_pos(k as nat);
    }
    if k > PRECISION {
        proof {
            lemma_pow10_34();
            lemma_pow10_mono(35, k as nat);
            assert(pow10(35) == 10 * pow10(34));
            lemma_basic_div(
                (magnitude(dec.coefficient as int) + pow10(k as nat) / 2) as int,
                pow10(k as nat) as int,
            );
        }
        return Decimal { coefficient: 0, exponent };
    }
    let p: i128 = pow10_exec(k);
    proof {
        lemma_pow10_mono(k as nat, 34);
        lemma_pow10_34();
    }
    let c: i128 = if dec.coefficient < 0 {
        -((-dec.coefficient + p / 2) / p)
    } else {
        (dec.coefficient + p / 2) / p
    };
    Decimal { coefficient: c, exponent }
}

/// Rounding to a coarser place keeps the coefficient within its bound.
pub proof fn lemma_quantize_in_range(dec: Decimal, e: int)
    requires
        dec.wf(),
        dec.exponent <= e <= EMAX,
    ensures
        dec.spec_quantize(e).wf(),
{
    let k = (e - dec.exponent) as nat;
    let m = magnitude(dec.coefficient as int);
    let p = pow10(k);
    lemma_pow10_pos(k);
    lemma_pow10_34();
    let x = m + p / 2;
    if k > 34 {
        lemma_pow10_mono(35, k);
        assert(pow10(35) == 10 * pow10(34));
        lemma_basic_div(x as int, p as int);
    } else {
        lemma_pow10_mono(k, 34);
        if p >= 2 {
            lemma_div_is_ordered_by_denominator(x as int, 2, p as int);
        }
    }
}

/// Rounding off a digit of a number of two or more digits makes it smaller.
pub proof fn lemma_shrink_digits(c: int, e: int, d: nat)
    requires
        d >= 1,
    ensures
        num_digits(magnitude(shrink(c, e, d).0)) <= d,
        magnitude(shrink(c, e, d).0) <= magnitude(c),
    decreases magnitude(c),
{
    if num_digits(magnitude(c)) > d && magnitude(c) >= 10 {
        lemma_shrink_digits(round_half_up(c, 10), e + 1, d);
    }
}

/// Rounding off digits keeps a non-negative coefficient non-negative.
pub proof fn lemma_shrink_nonneg(c: int, e: int, d: nat)
    requires
        c >= 0,
    ensures
        shrink(c, e, d).0 >= 0,
    decreases magnitude(c),
{
    if d >= 1 && num_digits(magnitude(c)) > d && magnitude(c) >= 10 {
        lemma_shrink_nonneg(round_half_up(c, 10), e + 1, d);
    }
}

/// Each step of `shrink` raises the exponent by one.
pub proof fn lemma_shrink_exponent(c: int, e: int, d: nat)
    ensures
        shrink(c, e, d).1 >= e,
    decreases magnitude(c),
{
    if d >= 1 && num_digits(magnitude(c)) > d && magnitude(c) >= 10 {
        lemma_shrink_exponent(round_half_up(c, 10), e + 1, d);
    }
}

pub proof fn lemma_pow10_mono(a: nat, b: nat)
    requires
        a <= b,
    ensures
        pow10(a) <= pow10(b),
    decreases b,
{
    if a < b {
        lemma_pow10_mono(a, (b - 1) as nat);
        lemma_pow10_pos((b - 1) as nat);
    }
}

pub proof fn lemma_num_digits_pos(n: nat)
    ensures
        num_digits(n) >= 1,
    decreases n,
{
    if n >= 10 {
        lemma_num_digits_pos(n / 10);
    }
}

pub proof fn lemma_pow10_pos(k: nat)
    ensures
        pow10(k) >= 1,
    decreases k,
{
    if k > 0 {
        lemma_pow10_pos((k - 1) as nat);
    }
}

/// A number below `10^k` has at most `k` digits.
pub proof fn lemma_digits_bound(n: nat, k: nat)
    requires
        k >= 1,
        n < pow10(k),
    ensures
        num_digits(n) <= k,
    decreases k,
{
    if n >= 10 {
        if k == 1 {
            assert(pow10(1) == 10 * pow10(0));
        } else {
            assert(pow10(k) == 10 * pow10((k - 1) as nat));
            lemma_digits_bound(n / 10, (k - 1) as nat);
        }
    }
}

/// A number with `num_digits(n)` digits lies below `10^num_digits(n)`.
pub proof fn lemma_below_pow10(n: nat)
    ensures
        n < pow10(num_digits(n)),
    decreases n,
{
    if n < 10 {
        assert(pow10(1) == 10 * pow10(0));
    } else {
        lemma_below_pow10(n / 10);
        assert(pow10(num_digits(n)) == 10 * pow10(num_digits(n / 10)));
    }
}

/// Appending a zero to a nonzero number adds one digit.
pub proof fn lemma_digits_times10(n: nat)
    requires
        n > 0,
    ensures
        num_digits(n * 10) == num_digits(n) + 1,
{
    assert((n * 10) / 10 == n);
}

/// The coefficient bound is ten to the thirty-fourth.
pub proof fn lemma_pow10_34()
    ensures
        pow10(34) == COEFF_LIMIT,
{
    reveal_with_fuel(pow10, 35);
}

} // verus!
