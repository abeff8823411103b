//! Exact decimal amounts.
//!
//! An [`Amount`] is a pair of a signed mantissa of at most 96 bits and a scale
//! between 0 and 28: the number `mantissa / 10^scale`. Contracts speak of an
//! amount through [`Amount::units`], its value counted in units of `10^-28`,
//! which is an integer for every amount.
//!
//! Sums and differences are exact or refused. Whether one is refused depends
//! on the two values alone, not on how they are written: see [`sum_fits`].

use rust_decimal::Decimal;
use vstd::prelude::*;

verus! {

/// The largest magnitude of a mantissa, `2^96 - 1`.
pub const MAX_MANTISSA: i128 = 79_228_162_514_264_337_593_543_950_335;

/// The largest scale: the number of fractional digits of one unit.
pub const MAX_SCALE: u32 = 28;

/// `10^n`.
pub open spec fn pow10(n: nat) -> int
    decreases n,
{
    if n == 0 {
        1
    } else {
        10 * pow10((n - 1) as nat)
    }
}

/// Whether `m` can be the mantissa of an amount.
pub open spec fn is_mantissa(m: int) -> bool {
    -MAX_MANTISSA <= m <= MAX_MANTISSA
}

/// `m / 10^digits`, rounded to the nearest integer, a tie away from zero.
pub open spec fn round_half_away(m: int, digits: nat) -> int {
    let magnitude = if m < 0 {
        -m
    } else {
        m
    };
    let quotient = magnitude / pow10(digits);
    let rest = magnitude % pow10(digits);
    let rounded = if 2 * rest >= pow10(digits) {
        quotient + 1
    } else {
        quotient
    };
    if m < 0 {
        -rounded
    } else {
        rounded
    }
}

/// A power of ten is at least one.
pub proof fn lemma_pow10_positive(n: nat)
    ensures
        pow10(n) >= 1,
    decreases n,
{
    if n > 0 {
        lemma_pow10_positive((n - 1) as nat);
    }
}

/// Powers of ten multiply by adding their exponents.
pub proof fn lemma_pow10_sum(a: nat, b: nat)
    ensures
        pow10(a + b) == pow10(a) * pow10(b),
    decreases a,
{
    if a > 0 {
        lemma_pow10_sum((a - 1) as nat, b);
        assert(pow10(a + b) == 10 * pow10((a - 1 + b) as nat));
        assert(10 * (pow10((a - 1) as nat) * pow10(b)) == (10 * pow10((a - 1) as nat)) * pow10(b))
            by (nonlinear_arith);
    } else {
        assert(1 * pow10(b) == pow10(b));
    }
}

/// The number of units of `10^-28` nearest to `units` among those that can
/// be written with `scale` fractional digits, a tie away from zero.
pub open spec fn rounded_units(units: int, scale: nat) -> int {
    round_half_away(units, (MAX_SCALE - scale) as nat) * pow10((MAX_SCALE - scale) as nat)
}

/// Rounding off `digits + zeros` digits of a number that ends in `zeros`
/// zeros is rounding off `digits` digits of the number without them.
pub proof fn lemma_round_with_zeros(m: int, digits: nat, zeros: nat)
    ensures
        round_half_away(m * pow10(zeros), digits + zeros) == round_half_away(m, digits),
{
    let p = pow10(digits);
    let q = pow10(zeros);
    let a = if m < 0 {
        -m
    } else {
        m
    };
    lemma_pow10_positive(digits);
    lemma_pow10_positive(zeros);
    lemma_pow10_sum(digits, zeros);
    assert(m < 0 ==> m * q < 0) by (nonlinear_arith)
        requires
            q >= 1,
    ;
    assert(m >= 0 ==> m * q >= 0) by (nonlinear_arith)
        requires
            q >= 1,
    ;
    assert(-(m * q) == (-m) * q) by (nonlinear_arith);
    assert(a * q == q * a && p * q == q * p) by (nonlinear_arith);
    vstd::arithmetic::div_mod::lemma_div_multiples_vanish_quotient(q, a, p);
    vstd::arithmetic::div_mod::lemma_truncate_middle(a, q, p);
    let rest = a % p;
    assert((a * q) / (p * q) == a / p);
    assert((a * q) % (p * q) == q * rest);
    assert((2 * (q * rest) >= p * q) == (2 * rest >= p)) by (nonlinear_arith)
        requires
            q >= 1,
    ;
}

/// Whether a number of units is an amount with `scale` fractional digits:
/// a mantissa times `10^(28 - scale)`.
pub open spec fn writable(units: int, scale: nat) -> bool {
    &&& scale <= MAX_SCALE
    &&& units % pow10((MAX_SCALE - scale) as nat) == 0
    &&& is_mantissa(units / pow10((MAX_SCALE - scale) as nat))
}

/// Whether there is a scale at which all three numbers are amounts.
pub open spec fn share_a_scale(x: int, y: int, z: int) -> bool {
    exists|scale: nat| #[trigger] writable(x, scale) && writable(y, scale) && writable(z, scale)
}

/// Whether the sum of two values can be computed exactly: one scale writes
/// both of them and their sum. It holds whenever one of the two is zero and
/// the other an amount.
pub open spec fn sum_fits(x: int, y: int) -> bool {
    share_a_scale(x, y, x + y)
}

/// Whether the difference of two values can be computed exactly: one scale
/// writes both of them and their difference. That is to say that the
/// difference and what is taken off can be added again.
pub open spec fn difference_fits(x: int, y: int) -> bool {
    sum_fits(x - y, y)
}

/// `x + y`, or `x - y` where `negate` is set.
pub open spec fn combined(x: int, y: int, negate: bool) -> int {
    if negate {
        x - y
    } else {
        x + y
    }
}

/// A multiple of a positive number leaves no remainder, and divides back.
pub proof fn lemma_multiple(k: int, p: int)
    requires
        p > 0,
    ensures
        (k * p) % p == 0,
        (k * p) / p == k,
{
    vstd::arithmetic::div_mod::lemma_mod_multiples_basic(k, p);
    vstd::arithmetic::div_mod::lemma_div_multiples_vanish(k, p);
    assert(k * p == p * k) by (nonlinear_arith);
}

/// The order of the three numbers does not matter to whether one scale
/// writes them all.
pub proof fn lemma_share_in_any_order(x: int, y: int, z: int)
    requires
        share_a_scale(x, y, z),
    ensures
        share_a_scale(z, y, x),
        share_a_scale(y, x, z),
{
    let scale = choose|scale: nat| #[trigger]
        writable(x, scale) && writable(y, scale) && writable(z, scale);
    assert(writable(z, scale) && writable(y, scale) && writable(x, scale));
    assert(writable(y, scale) && writable(x, scale) && writable(z, scale));
}

/// An amount and zero can be added and subtracted, and an amount can be
/// taken from itself.
pub proof fn lemma_zero_fits(x: int, scale: nat)
    requires
        writable(x, scale),
    ensures
        sum_fits(0, x),
        sum_fits(x, 0),
        difference_fits(x, 0),
        difference_fits(x, x),
{
    lemma_pow10_positive((MAX_SCALE - scale) as nat);
    lemma_multiple(0, pow10((MAX_SCALE - scale) as nat));
    assert(writable(0, scale));
    assert(writable(0, scale) && writable(x, scale) && writable(0 + x, scale));
    assert(writable(x, scale) && writable(0, scale) && writable(x + 0, scale));
    assert(writable(x - 0, scale) && writable(0, scale) && writable(x - 0 + 0, scale));
    assert(writable(x - x, scale) && writable(x, scale) && writable(x - x + x, scale));
}

/// What was added can be taken off again, and what was taken off can be
/// added again.
pub proof fn lemma_undo(x: int, y: int)
    ensures
        sum_fits(x, y) ==> difference_fits(x + y, y),
        difference_fits(x, y) ==> sum_fits(x - y, y),
{
    assert(x + y - y == x);
}

/// A decimal number `mantissa / 10^scale`.
#[derive(Clone, Copy, Debug)]
pub struct Amount {
    mantissa: i128,
    scale: u32,
}

impl Amount {
    /// Whether the scale is at most 28 and the mantissa at most 96 bits
    /// long. It holds of every amount that a program can hold.
    #[verifier::type_invariant]
    pub closed spec fn in_range(self) -> bool {
        self.scale <= MAX_SCALE && is_mantissa(self.mantissa as int)
    }

    /// The mantissa, as a mathematical integer.
    pub closed spec fn mantissa_spec(self) -> int {
        self.mantissa as int
    }

    /// The scale: how many of the mantissa's digits are fractional.
    pub closed spec fn scale_spec(self) -> nat {
        self.scale as nat
    }

    /// The value in units of `10^-28`.
    pub open spec fn units(self) -> int {
        self.mantissa_spec() * pow10((MAX_SCALE - self.scale_spec()) as nat)
    }

    /// Zero, with scale 0.
    pub closed spec fn zero_spec() -> Amount {
        Amount { mantissa: 0, scale: 0 }
    }

    /// Zero is the pair of mantissa 0 and scale 0, and counts no units.
    pub broadcast proof fn lemma_zero()
        ensures
            (#[trigger] Amount::zero_spec()).mantissa_spec() == 0,
            Amount::zero_spec().scale_spec() == 0,
            Amount::zero_spec().units() == 0,
    {
    }

    /// The larger of the two scales.
    pub open spec fn common_scale(self, rhs: Amount) -> nat {
        if self.scale_spec() >= rhs.scale_spec() {
            self.scale_spec()
        } else {
            rhs.scale_spec()
        }
    }

    /// The mantissa that gives the same value at a scale that is no smaller.
    pub open spec fn raised(self, scale: nat) -> int {
        self.mantissa_spec() * pow10((scale - self.scale_spec()) as nat)
    }

    /// Whether both amounts can be written at their common scale.
    pub open spec fn aligns_with(self, rhs: Amount) -> bool {
        &&& is_mantissa(self.raised(self.common_scale(rhs)))
        &&& is_mantissa(rhs.raised(self.common_scale(rhs)))
    }

    /// The mantissa of the sum, or of the difference where `negate` is set,
    /// at the common scale.
    pub open spec fn written_result(self, rhs: Amount, negate: bool) -> int {
        combined(
            self.raised(self.common_scale(rhs)),
            rhs.raised(self.common_scale(rhs)),
            negate,
        )
    }

    /// Whether both amounts and their sum, or difference, can be written at
    /// the common scale.
    pub open spec fn fits_as_written(self, rhs: Amount, negate: bool) -> bool {
        self.aligns_with(rhs) && is_mantissa(self.written_result(rhs, negate))
    }

    /// Whether one of the two is zero, or the result can be written at the
    /// common scale.
    pub open spec fn plain(self, rhs: Amount, negate: bool) -> bool {
        self.mantissa_spec() == 0 || rhs.mantissa_spec() == 0 || self.fits_as_written(rhs, negate)
    }

    /// Whether the amount is written with no more fractional digits than its
    /// value needs: zero has scale 0, and no other mantissa ends in a zero
    /// that is a fractional digit.
    pub open spec fn is_normal(self) -> bool {
        &&& self.mantissa_spec() == 0 ==> self.scale_spec() == 0
        &&& self.scale_spec() > 0 ==> self.mantissa_spec() % 10 != 0
    }

    /// Whether `self` is `source` brought to at most `scale` fractional
    /// digits: `source` itself where it has no more than that, else `source`
    /// rounded to `scale` digits, a tie away from zero.
    pub open spec fn is_rounding_of(self, source: Amount, scale: nat) -> bool {
        if source.scale_spec() <= scale {
            self == source
        } else {
            &&& self.scale_spec() == scale
            &&& self.mantissa_spec() == round_half_away(
                source.mantissa_spec(),
                (source.scale_spec() - scale) as nat,
            )
        }
    }

    /// What [`Amount::is_rounding_of`] gives depends on the value alone: it
    /// is the value rounded to `scale` fractional digits.
    pub proof fn lemma_rounding_by_value(self, source: Amount, scale: nat)
        requires
            self.is_rounding_of(source, scale),
            source.scale_spec() <= MAX_SCALE,
            scale <= MAX_SCALE,
        ensures
            self.units() == rounded_units(source.units(), scale),
    {
        let rest = (MAX_SCALE - scale) as nat;
        if source.scale_spec() <= scale {
            source.lemma_units_of_raised(scale);
            lemma_round_with_zeros(source.raised(scale), 0, rest);
            assert(pow10(0) == 1);
            assert(round_half_away(source.raised(scale), 0) == source.raised(scale));
        } else {
            let digits = (source.scale_spec() - scale) as nat;
            let zeros = (MAX_SCALE - source.scale_spec()) as nat;
            lemma_round_with_zeros(source.mantissa_spec(), digits, zeros);
        }
    }

    /// An amount at a scale `scale` counts `10^(28 - scale)` units for each
    /// step of its raised mantissa.
    pub proof fn lemma_units_of_raised(self, scale: nat)
        requires
            self.scale_spec() <= scale <= MAX_SCALE,
        ensures
            self.units() == self.raised(scale) * pow10((MAX_SCALE - scale) as nat),
    {
        let up = (scale - self.scale_spec()) as nat;
        let rest = (MAX_SCALE - scale) as nat;
        lemma_pow10_sum(up, rest);
        assert(self.mantissa_spec() * (pow10(up) * pow10(rest)) == (self.mantissa_spec() * pow10(
            up,
        )) * pow10(rest)) by (nonlinear_arith);
    }

    /// Every amount in range can be written at its own scale.
    pub proof fn lemma_writable(self)
        requires
            self.scale_spec() <= MAX_SCALE,
            is_mantissa(self.mantissa_spec()),
        ensures
            writable(self.units(), self.scale_spec()),
    {
        assert(pow10(0) == 1);
        assert(self.raised(self.scale_spec()) == self.mantissa_spec());
        self.lemma_writable_when_raised(self.scale_spec());
    }

    /// An amount can be written at every scale at which its raised mantissa
    /// is a mantissa.
    proof fn lemma_writable_when_raised(self, scale: nat)
        requires
            self.scale_spec() <= scale <= MAX_SCALE,
            is_mantissa(self.raised(scale)),
        ensures
            writable(self.units(), scale),
            self.units() / pow10((MAX_SCALE - scale) as nat) == self.raised(scale),
    {
        self.lemma_units_of_raised(scale);
        lemma_pow10_positive((MAX_SCALE - scale) as nat);
        lemma_multiple(self.raised(scale), pow10((MAX_SCALE - scale) as nat));
    }

    /// Where one of two amounts is zero, or the result can be written at
    /// their common scale, one scale writes the two and the result.
    pub proof fn lemma_plain_shares_a_scale(self, rhs: Amount, negate: bool)
        requires
            self.scale_spec() <= MAX_SCALE,
            rhs.scale_spec() <= MAX_SCALE,
            is_mantissa(self.mantissa_spec()),
            is_mantissa(rhs.mantissa_spec()),
            self.plain(rhs, negate),
        ensures
            share_a_scale(self.units(), rhs.units(), combined(self.units(), rhs.units(), negate)),
    {
        let x = self.units();
        let y = rhs.units();
        let z = combined(x, y, negate);
        assert(pow10(0) == 1);
        if self.mantissa_spec() == 0 || rhs.mantissa_spec() == 0 {
            let scale = if self.mantissa_spec() == 0 {
                rhs.scale_spec()
            } else {
                self.scale_spec()
            };
            let p = pow10((MAX_SCALE - scale) as nat);
            lemma_pow10_positive((MAX_SCALE - scale) as nat);
            lemma_multiple(0, p);
            if self.mantissa_spec() == 0 {
                assert(rhs.raised(scale) == rhs.mantissa_spec());
                rhs.lemma_writable_when_raised(scale);
                assert(x == 0);
                assert(y == rhs.mantissa_spec() * p);
                assert(-y == (-rhs.mantissa_spec()) * p) by (nonlinear_arith)
                    requires
                        y == rhs.mantissa_spec() * p,
                ;
                lemma_multiple(-rhs.mantissa_spec(), p);
            } else {
                assert(self.raised(scale) == self.mantissa_spec());
                self.lemma_writable_when_raised(scale);
                assert(y == 0);
            }
            assert(writable(x, scale) && writable(y, scale) && writable(z, scale));
        } else {
            let scale = self.common_scale(rhs);
            let p = pow10((MAX_SCALE - scale) as nat);
            let a = self.raised(scale);
            let b = rhs.raised(scale);
            lemma_pow10_positive((MAX_SCALE - scale) as nat);
            self.lemma_units_of_raised(scale);
            rhs.lemma_units_of_raised(scale);
            self.lemma_writable_when_raised(scale);
            rhs.lemma_writable_when_raised(scale);
            assert(z == combined(a, b, negate) * p) by (nonlinear_arith)
                requires
                    x == a * p,
                    y == b * p,
                    z == combined(x, y, negate),
            ;
            lemma_multiple(combined(a, b, negate), p);
            assert(writable(x, scale) && writable(y, scale) && writable(z, scale));
        }
    }

    /// A normal amount other than zero can be written at no scale below its
    /// own.
    proof fn lemma_normal_scale_is_least(self, scale: nat)
        requires
            self.in_range(),
            self.is_normal(),
            self.mantissa_spec() != 0,
            writable(self.units(), scale),
        ensures
            self.scale_spec() <= scale,
            self.units() / pow10((MAX_SCALE - scale) as nat) == self.raised(scale),
            is_mantissa(self.raised(scale)),
    {
        let own = self.scale_spec();
        let m = self.mantissa_spec();
        if scale < own {
            let p = pow10((MAX_SCALE - own) as nat);
            let q = pow10((own - scale) as nat);
            let rest = pow10((own - scale - 1) as nat);
            let d = pow10((MAX_SCALE - scale) as nat);
            lemma_pow10_sum((own - scale) as nat, (MAX_SCALE - own) as nat);
            lemma_pow10_positive((MAX_SCALE - own) as nat);
            lemma_pow10_positive((MAX_SCALE - scale) as nat);
            assert(d == q * p);
            assert(q == 10 * rest);
            let x = self.units();
            let k = x / d;
            vstd::arithmetic::div_mod::lemma_fundamental_div_mod(x, d);
            assert(x == d * k);
            assert(m == 10 * (rest * k)) by (nonlinear_arith)
                requires
                    m * p == d * k,
                    d == q * p,
                    q == 10 * rest,
                    p >= 1,
            ;
            lemma_multiple(rest * k, 10);
            assert(m == (rest * k) * 10);
            assert(m % 10 == 0);
        } else {
            self.lemma_units_of_raised(scale);
            lemma_pow10_positive((MAX_SCALE - scale) as nat);
            lemma_multiple(self.raised(scale), pow10((MAX_SCALE - scale) as nat));
        }
    }

    /// Where one scale writes two normal amounts other than zero and their
    /// sum or difference, their common scale does.
    proof fn lemma_shared_scale_is_written(self, rhs: Amount, negate: bool)
        requires
            self.in_range(),
            rhs.in_range(),
            self.is_normal(),
            rhs.is_normal(),
            self.mantissa_spec() != 0,
            rhs.mantissa_spec() != 0,
            share_a_scale(self.units(), rhs.units(), combined(self.units(), rhs.units(), negate)),
        ensures
            self.fits_as_written(rhs, negate),
    {
        let x = self.units();
        let y = rhs.units();
        let z = combined(x, y, negate);
        let wide = choose|scale: nat| #[trigger]
            writable(x, scale) && writable(y, scale) && writable(z, scale);
        self.lemma_normal_scale_is_least(wide);
        rhs.lemma_normal_scale_is_least(wide);
        let scale = self.common_scale(rhs);
        let u = pow10((wide - scale) as nat);
        let d = pow10((MAX_SCALE - wide) as nat);
        lemma_pow10_positive((wide - scale) as nat);
        lemma_pow10_positive((MAX_SCALE - wide) as nat);
        lemma_pow10_sum((scale - self.scale_spec()) as nat, (wide - scale) as nat);
        lemma_pow10_sum((scale - rhs.scale_spec()) as nat, (wide - scale) as nat);
        let a = self.raised(scale);
        let b = rhs.raised(scale);
        let a_wide = self.raised(wide);
        let b_wide = rhs.raised(wide);
        assert(a_wide == a * u) by (nonlinear_arith)
            requires
                a_wide == self.mantissa_spec() * (pow10((scale - self.scale_spec()) as nat) * u),
                a == self.mantissa_spec() * pow10((scale - self.scale_spec()) as nat),
        ;
        assert(b_wide == b * u) by (nonlinear_arith)
            requires
                b_wide == rhs.mantissa_spec() * (pow10((scale - rhs.scale_spec()) as nat) * u),
                b == rhs.mantissa_spec() * pow10((scale - rhs.scale_spec()) as nat),
        ;
        self.lemma_units_of_raised(wide);
        rhs.lemma_units_of_raised(wide);
        assert(z == combined(a_wide, b_wide, negate) * d) by (nonlinear_arith)
            requires
                x == a_wide * d,
                y == b_wide * d,
                z == combined(x, y, negate),
        ;
        lemma_multiple(combined(a_wide, b_wide, negate), d);
        let c = combined(a, b, negate);
        assert(combined(a_wide, b_wide, negate) == c * u) by (nonlinear_arith)
            requires
                a_wide == a * u,
                b_wide == b * u,
                c == combined(a, b, negate),
        ;
        assert(is_mantissa(a) && is_mantissa(b) && is_mantissa(c)) by (nonlinear_arith)
            requires
                u >= 1,
                is_mantissa(a * u),
                is_mantissa(b * u),
                is_mantissa(c * u),
        ;
    }

    /// The amount `mantissa / 10^scale`, where the pair is in range.
    pub fn new(mantissa: i128, scale: u32) -> (r: Option<Amount>)
        ensures
            r is Some <==> scale <= MAX_SCALE && is_mantissa(mantissa as int),
            r matches Some(a) ==> a.mantissa_spec() == mantissa && a.scale_spec() == scale,
    {
        if scale <= MAX_SCALE && -MAX_MANTISSA <= mantissa && mantissa <= MAX_MANTISSA {
            Some(Amount { mantissa, scale })
        } else {
            None
        }
    }

    /// Zero, with scale 0.
    pub fn zero() -> (r: Amount)
        ensures
            r == Amount::zero_spec(),
            r.mantissa_spec() == 0,
            r.scale_spec() == 0,
            r.units() == 0,
    {
        Amount { mantissa: 0, scale: 0 }
    }

    /// The mantissa.
    pub fn mantissa(&self) -> (r: i128)
        ensures
            r == self.mantissa_spec(),
            is_mantissa(r as int),
    {
        proof {
            use_type_invariant(self);
        }
        self.mantissa
    }

    /// The scale.
    pub fn scale(&self) -> (r: u32)
        ensures
            r == self.scale_spec(),
            r <= MAX_SCALE,
    {
        proof {
            use_type_invariant(self);
        }
        self.scale
    }

    /// Both mantissas at the common scale, where both can be written there.
    fn aligned(self, rhs: Amount) -> (r: Option<(i128, i128)>)
        ensures
            r is Some <==> self.aligns_with(rhs),
            r matches Some((a, b)) ==> a == self.raised(self.common_scale(rhs)) && b == rhs.raised(
                self.common_scale(rhs),
            ),
    {
        proof {
            use_type_invariant(self);
            use_type_invariant(rhs);
            assert(self.mantissa_spec() * 1 == self.mantissa_spec());
            assert(rhs.mantissa_spec() * 1 == rhs.mantissa_spec());
        }
        if self.scale >= rhs.scale {
            match scale_up(rhs.mantissa, self.scale - rhs.scale) {
                Some(b) => Some((self.mantissa, b)),
                None => None,
            }
        } else {
            match scale_up(self.mantissa, rhs.scale - self.scale) {
                Some(a) => Some((a, rhs.mantissa)),
                None => None,
            }
        }
    }

    /// Whether both amounts and their sum, or difference, can be written at
    /// the common scale.
    fn adds_up_as_written(self, rhs: Amount, negate: bool) -> (r: bool)
        ensures
            r == self.fits_as_written(rhs, negate),
    {
        match self.aligned(rhs) {
            Some((a, b)) => {
                let c = if negate {
                    a - b
                } else {
                    a + b
                };
                -MAX_MANTISSA <= c && c <= MAX_MANTISSA
            },
            None => false,
        }
    }

    /// The sum, or the difference where `negate` is set, where one scale
    /// writes both amounts and the result.
    ///
    /// The decimal arithmetic rounds a result that it cannot write at the
    /// common scale. So it is called as the amounts stand where one is zero
    /// or the result can be written there, and else on both without their
    /// trailing zeros, if the result can be written then.
    fn combine(self, rhs: Amount, negate: bool) -> (r: Option<Amount>)
        ensures
            r is Some <==> share_a_scale(
                self.units(),
                rhs.units(),
                combined(self.units(), rhs.units(), negate),
            ),
            r matches Some(v) ==> v.units() == combined(self.units(), rhs.units(), negate)
                && v.scale_spec() <= self.common_scale(rhs),
            self.plain(rhs, negate) ==> r is Some,
    {
        proof {
            use_type_invariant(self);
            use_type_invariant(rhs);
        }
        if self.mantissa == 0 || rhs.mantissa == 0 || self.adds_up_as_written(rhs, negate) {
            proof {
                self.lemma_plain_shares_a_scale(rhs, negate);
            }
            if negate {
                decimal_checked_sub(self, rhs)
            } else {
                decimal_checked_add(self, rhs)
            }
        } else {
            let a = decimal_normalize(self);
            let b = decimal_normalize(rhs);
            proof {
                assert(a.mantissa_spec() != 0) by {
                    if a.mantissa_spec() == 0 {
                        assert(a.units() == 0);
                        lemma_pow10_positive((MAX_SCALE - self.scale_spec()) as nat);
                        assert(self.units() != 0) by (nonlinear_arith)
                            requires
                                self.units() == self.mantissa_spec() * pow10(
                                    (MAX_SCALE - self.scale_spec()) as nat,
                                ),
                                self.mantissa_spec() != 0,
                                pow10((MAX_SCALE - self.scale_spec()) as nat) >= 1,
                        ;
                    }
                }
                assert(b.mantissa_spec() != 0) by {
                    if b.mantissa_spec() == 0 {
                        assert(b.units() == 0);
                        lemma_pow10_positive((MAX_SCALE - rhs.scale_spec()) as nat);
                        assert(rhs.units() != 0) by (nonlinear_arith)
                            requires
                                rhs.units() == rhs.mantissa_spec() * pow10(
                                    (MAX_SCALE - rhs.scale_spec()) as nat,
                                ),
                                rhs.mantissa_spec() != 0,
                                pow10((MAX_SCALE - rhs.scale_spec()) as nat) >= 1,
                        ;
                    }
                }
            }
            if a.adds_up_as_written(b, negate) {
                proof {
                    a.lemma_plain_shares_a_scale(b, negate);
                }
                if negate {
                    decimal_checked_sub(a, b)
                } else {
                    decimal_checked_add(a, b)
                }
            } else {
                proof {
                    if share_a_scale(
                        a.units(),
                        b.units(),
                        combined(a.units(), b.units(), negate),
                    ) {
                        a.lemma_shared_scale_is_written(b, negate);
                    }
                }
                None
            }
        }
    }

    /// The sum, where one scale writes both amounts and their sum.
    pub fn checked_add(self, rhs: Amount) -> (r: Option<Amount>)
        ensures
            r is Some <==> sum_fits(self.units(), rhs.units()),
            r matches Some(v) ==> v.units() == self.units() + rhs.units() && v.scale_spec()
                <= self.common_scale(rhs),
            self.plain(rhs, false) ==> r is Some,
    {
        self.combine(rhs, false)
    }

    /// The difference, where one scale writes both amounts and their
    /// difference.
    pub fn checked_sub(self, rhs: Amount) -> (r: Option<Amount>)
        ensures
            r is Some <==> difference_fits(self.units(), rhs.units()),
            r matches Some(v) ==> v.units() == self.units() - rhs.units() && v.scale_spec()
                <= self.common_scale(rhs),
            self.plain(rhs, true) ==> r is Some,
    {
        proof {
            let x = self.units();
            let y = rhs.units();
            if share_a_scale(x, y, x - y) {
                lemma_share_in_any_order(x, y, x - y);
            }
            if share_a_scale(x - y, y, x - y + y) {
                lemma_share_in_any_order(x - y, y, x);
            }
        }
        self.combine(rhs, true)
    }

    /// Whether `self` is the smaller value.
    pub fn lt(&self, rhs: &Amount) -> (r: bool)
        ensures
            r == (self.units() < rhs.units()),
    {
        proof {
            use_type_invariant(self);
            use_type_invariant(rhs);
        }
        decimal_lt(*self, *rhs)
    }

    /// The amount with at most `scale` fractional digits: itself where it has
    /// no more, else rounded to `scale` digits, a tie away from zero.
    pub fn round_to(self, scale: u32) -> (r: Amount)
        ensures
            r.is_rounding_of(self, scale as nat),
            scale <= MAX_SCALE ==> r.units() == rounded_units(self.units(), scale as nat),
    {
        proof {
            use_type_invariant(self);
        }
        let r = if self.scale > scale {
            decimal_rescale(self, scale)
        } else {
            self
        };
        proof {
            if scale <= MAX_SCALE {
                r.lemma_rounding_by_value(self, scale as nat);
            }
        }
        r
    }
}

/// Two amounts are equal where their values are: `1.5` equals `1.50`.
impl PartialEq for Amount {
    fn eq(&self, other: &Amount) -> (r: bool) {
        !self.lt(other) && !other.lt(self)
    }
}

impl vstd::std_specs::cmp::PartialEqSpecImpl for Amount {
    open spec fn obeys_eq_spec() -> bool {
        true
    }

    open spec fn eq_spec(&self, other: &Amount) -> bool {
        self.units() == other.units()
    }
}

impl Default for Amount {
    /// Zero.
    fn default() -> (r: Amount)
        ensures
            r == Amount::zero_spec(),
            r.mantissa_spec() == 0,
            r.scale_spec() == 0,
            r.units() == 0,
    {
        Amount::zero()
    }
}

/// `mantissa * 10^digits`, where that is a mantissa again.
fn scale_up(mantissa: i128, digits: u32) -> (r: Option<i128>)
    requires
        is_mantissa(mantissa as int),
        digits <= MAX_SCALE,
    ensures
        r is Some <==> is_mantissa(mantissa * pow10(digits as nat)),
        r matches Some(m) ==> m == mantissa * pow10(digits as nat),
{
    let mut m: i128 = mantissa;
    let mut i: u32 = 0;
    proof {
        assert(mantissa * 1 == mantissa);
    }
    while i < digits
        invariant
            i <= digits <= MAX_SCALE,
            is_mantissa(m as int),
            m == mantissa * pow10(i as nat),
        decreases digits - i,
    {
        if m > MAX_MANTISSA / 10 || m < -(MAX_MANTISSA / 10) {
            proof {
                let rest = (digits - i) as nat;
                lemma_pow10_sum(i as nat, rest);
                lemma_pow10_positive((rest - 1) as nat);
                assert(mantissa * (pow10(i as nat) * pow10(rest)) == (mantissa * pow10(i as nat))
                    * pow10(rest)) by (nonlinear_arith);
                let p = pow10(rest);
                assert(p >= 10);
                assert(m > MAX_MANTISSA / 10 && p >= 10 ==> m * p >= m * 10) by (nonlinear_arith);
                assert(m < -(MAX_MANTISSA / 10) && p >= 10 ==> m * p <= m * 10)
                    by (nonlinear_arith);
            }
            return None;
        }
        proof {
            assert(mantissa * (10 * pow10(i as nat)) == 10 * (mantissa * pow10(i as nat)))
                by (nonlinear_arith);
        }
        m = m * 10;
        i = i + 1;
    }
    Some(m)
}

/// The five functions below call into `rust_decimal`. Each builds its
/// `Decimal`s with `Decimal::from_i128_with_scale`, which takes every pair in
/// range, and reads a result back with `mantissa` and `scale`. Their
/// contracts are taken on trust.
///
/// `Decimal::checked_add` on two amounts. Where one of them is zero, or the
/// sum can be written at the larger of the two scales, the call gives
/// exactly the sum, with no more fractional digits than that scale; of any
/// other call only that a result is an amount.
#[verifier::external_body]
fn decimal_checked_add(a: Amount, b: Amount) -> (r: Option<Amount>)
    requires
        a.in_range(),
        b.in_range(),
    ensures
        r matches Some(v) ==> v.in_range(),
        a.plain(b, false) ==> r is Some && r.unwrap().units() == a.units() + b.units()
            && r.unwrap().scale_spec() <= a.common_scale(b),
{
    let x = Decimal::from_i128_with_scale(a.mantissa, a.scale);
    let y = Decimal::from_i128_with_scale(b.mantissa, b.scale);
    match x.checked_add(y) {
        Some(d) => Some(Amount { mantissa: d.mantissa(), scale: d.scale() }),
        None => None,
    }
}

/// `Decimal::checked_sub` on two amounts. Where one of them is zero, or the
/// difference can be written at the larger of the two scales, the call gives
/// exactly the difference, with no more fractional digits than that scale;
/// of any other call only that a result is an amount.
#[verifier::external_body]
fn decimal_checked_sub(a: Amount, b: Amount) -> (r: Option<Amount>)
    requires
        a.in_range(),
        b.in_range(),
    ensures
        r matches Some(v) ==> v.in_range(),
        a.plain(b, true) ==> r is Some && r.unwrap().units() == a.units() - b.units()
            && r.unwrap().scale_spec() <= a.common_scale(b),
{
    let x = Decimal::from_i128_with_scale(a.mantissa, a.scale);
    let y = Decimal::from_i128_with_scale(b.mantissa, b.scale);
    match x.checked_sub(y) {
        Some(d) => Some(Amount { mantissa: d.mantissa(), scale: d.scale() }),
        None => None,
    }
}

/// `Decimal::normalize`: the same value with its trailing fractional zeros
/// taken off, so with no more fractional digits than before, and zero with
/// scale 0.
#[verifier::external_body]
fn decimal_normalize(a: Amount) -> (r: Amount)
    requires
        a.in_range(),
    ensures
        r.in_range(),
        r.units() == a.units(),
        r.scale_spec() <= a.scale_spec(),
        r.is_normal(),
{
    let d = Decimal::from_i128_with_scale(a.mantissa, a.scale).normalize();
    Amount { mantissa: d.mantissa(), scale: d.scale() }
}

/// The `<` of `Decimal`: it orders two amounts by their values.
#[verifier::external_body]
fn decimal_lt(a: Amount, b: Amount) -> (r: bool)
    requires
        a.in_range(),
        b.in_range(),
    ensures
        r == (a.units() < b.units()),
{
    let x = Decimal::from_i128_with_scale(a.mantissa, a.scale);
    let y = Decimal::from_i128_with_scale(b.mantissa, b.scale);
    x < y
}

/// `Decimal::rescale` to a smaller scale: the result has that scale, and its
/// mantissa is the old one with the surplus digits rounded off, a tie away
/// from zero.
#[verifier::external_body]
fn decimal_rescale(a: Amount, scale: u32) -> (r: Amount)
    requires
        a.in_range(),
        scale < a.scale_spec(),
    ensures
        r.in_range(),
        r.scale_spec() == scale,
        r.mantissa_spec() == round_half_away(a.mantissa_spec(), (a.scale_spec() - scale) as nat),
{
    let mut d = Decimal::from_i128_with_scale(a.mantissa, a.scale);
    d.rescale(scale);
    Amount { mantissa: d.mantissa(), scale: d.scale() }
}

} // verus!
