//! Double-precision binary numbers, held as exact integers.
//!
//! The value of every finite double-precision number is a whole multiple of two to the power of
//! minus 1074. [`Double::scaled`] is that multiple: the number as an exact integer, and all
//! contracts speak of it.

use vstd::arithmetic::div_mod::*;
use vstd::arithmetic::mul::*;
use vstd::arithmetic::power2::*;
use vstd::prelude::*;

verus! {

/// Two to the power of 53: mantissas stay below this.
pub const MANTISSA_LIMIT: u64 = 0x20_0000_0000_0000;

/// Two to the power of 52: the smallest mantissa of a number that is not subnormal.
pub const MANTISSA_TOP: u64 = 0x10_0000_0000_0000;

/// Two to the power of 120: magnitudes before rounding stay below this.
pub const MAGNITUDE_LIMIT: u128 = 0x100_0000_0000_0000_0000_0000_0000_0000;

/// The largest exponent of a finite number.
pub const EXPONENT_MAX: u32 = 2045;

/// A finite double-precision number: a sign, a mantissa and a power of two.
#[derive(Clone, Copy, Debug)]
pub struct Double {
    negative: bool,
    mantissa: u64,
    exponent: u32,
}

/// How many low bits a magnitude has beyond the 53 that a double-precision number keeps.
pub open spec fn excess_bits(v: nat) -> nat
    decreases v,
{
    if v < MANTISSA_LIMIT {
        0
    } else {
        1 + excess_bits(v / 2)
    }
}

/// The magnitude that a double-precision number keeps of an exact one: the nearest multiple of the
/// unit in the last place, and the even one of the two if both are equally near.
pub open spec fn rounded(v: nat) -> nat {
    let unit = pow2(excess_bits(v));
    let quotient = v / unit;
    let rest = v % unit;
    if 2 * rest > unit || (2 * rest == unit && quotient % 2 == 1) {
        (quotient + 1) * unit
    } else {
        quotient * unit
    }
}

/// [`rounded`] for a number with a sign.
pub open spec fn rounded_signed(v: int) -> int {
    if v < 0 {
        -(rounded((-v) as nat) as int)
    } else {
        rounded(v as nat) as int
    }
}

/// Whether a scaled number is within the range of finite double-precision numbers.
pub open spec fn is_finite(v: int) -> bool {
    -pow2(2098) < v < pow2(2098)
}

/// The absolute value.
pub open spec fn magnitude(v: int) -> nat {
    if v < 0 {
        (-v) as nat
    } else {
        v as nat
    }
}

/// The exponent field of the binary representation.
pub open spec fn exponent_field(bits: u64) -> int {
    (bits as int / 0x10_0000_0000_0000) % 2048
}

/// The scaled value that a binary representation stands for, where its exponent field is not the
/// one of the infinities and of the values that are not a number.
pub open spec fn scaled_of_bits(bits: u64) -> int {
    let fraction = bits as int % 0x10_0000_0000_0000;
    let size = if exponent_field(bits) == 0 {
        fraction
    } else {
        (MANTISSA_TOP + fraction) * pow2((exponent_field(bits) - 1) as nat)
    };
    if bits >= 0x8000_0000_0000_0000 {
        -size
    } else {
        size
    }
}

/// Whether a number lies on the grid that starts at `start` and proceeds in steps of `step`, as
/// double-precision arithmetic sees it: the rounded distance to the start is a whole number of
/// steps. Nothing lies on a grid with a step of zero, nor does a number at an infinite distance.
pub open spec fn on_grid(value: int, start: int, step: int) -> bool {
    let distance = rounded_signed(value - start);
    step != 0 && is_finite(distance) && magnitude(distance) % magnitude(step) == 0
}

proof fn lemma_exponent_order(m1: nat, e1: nat, m2: nat, e2: nat)
    requires
        m1 < MANTISSA_LIMIT,
        m2 >= MANTISSA_TOP,
        e1 < e2,
    ensures
        m1 * pow2(e1) < m2 * pow2(e2),
{
    lemma_pow2_pos(e1);
    lemma_pow2_adds(e1, (e2 - e1) as nat);
    lemma_pow2_adds(1, (e2 - e1 - 1) as nat);
    lemma_pow2_pos((e2 - e1 - 1) as nat);
    lemma2_to64();
    let p = pow2(e1) as int;
    let g = pow2((e2 - e1) as nat) as int;
    assert(g >= 2);
    assert(m2 * (p * g) >= MANTISSA_TOP * (p * 2)) by (nonlinear_arith)
        requires
            m2 >= MANTISSA_TOP,
            g >= 2,
            p > 0,
    ;
    assert(m1 * p < MANTISSA_LIMIT * p) by (nonlinear_arith)
        requires
            m1 < MANTISSA_LIMIT,
            p > 0,
    ;
}

proof fn lemma_excess_at(v: nat, k: nat)
    requires
        MANTISSA_TOP <= v / pow2(k) < MANTISSA_LIMIT,
    ensures
        excess_bits(v) == k,
    decreases k,
{
    lemma_pow2_pos(k);
    if k == 0 {
        lemma2_to64();
        assert(pow2(0) == 1);
        assert(v / 1 == v);
    } else {
        lemma_pow2_unfold(k);
        lemma_pow2_pos((k - 1) as nat);
        let p = pow2((k - 1) as nat) as int;
        lemma_div_denominator(v as int, 2, p);
        assert((v / 2) / pow2((k - 1) as nat) == v / pow2(k));
        lemma_excess_at(v / 2, (k - 1) as nat);
        assert(v >= MANTISSA_LIMIT) by {
            lemma_fundamental_div_mod(v as int, 2 * p);
            let q = v as int / (2 * p);
            assert((2 * p) * q >= 2 * q) by (nonlinear_arith)
                requires
                    p >= 1,
                    q >= 0,
            ;
        }
    }
}

proof fn lemma_excess_scales(v: nat, e: nat)
    requires
        v >= MANTISSA_TOP,
    ensures
        excess_bits(v * pow2(e)) == excess_bits(v) + e,
    decreases e,
{
    if e == 0 {
        lemma2_to64();
        assert(v * 1 == v);
    } else {
        lemma_pow2_unfold(e);
        lemma_pow2_pos((e - 1) as nat);
        let p = pow2((e - 1) as nat);
        let half = v * p;
        assert(v * (2 * p) == 2 * half) by (nonlinear_arith)
            requires
                half == v * p,
        ;
        assert(half >= v) by (nonlinear_arith)
            requires
                half == v * p,
                p >= 1,
        ;
        assert(pow2(e) == 2 * p);
        assert(v * pow2(e) == 2 * half);
        assert((2 * half) / 2 == half);
        lemma_excess_scales(v, (e - 1) as nat);
    }
}

proof fn lemma_excess_bounded(v: nat, e: nat)
    requires
        v < MANTISSA_LIMIT,
    ensures
        excess_bits(v * pow2(e)) <= e,
    decreases e,
{
    if e == 0 {
        lemma2_to64();
        assert(v * 1 == v);
    } else {
        lemma_pow2_unfold(e);
        let p = pow2((e - 1) as nat);
        let half = v * p;
        assert(v * (2 * p) == 2 * half) by (nonlinear_arith)
            requires
                half == v * p,
        ;
        assert(v * pow2(e) == 2 * half);
        assert((2 * half) / 2 == half);
        lemma_excess_bounded(v, (e - 1) as nat);
    }
}

/// A number with at most 53 significant bits is kept as it is.
pub proof fn lemma_rounded_exact(v: nat, e: nat)
    requires
        v < MANTISSA_LIMIT,
    ensures
        rounded(v * pow2(e)) == v * pow2(e),
{
    lemma_excess_bounded(v, e);
    let k = excess_bits(v * pow2(e));
    lemma_pow2_adds(k, (e - k) as nat);
    lemma_pow2_pos(k);
    let unit = pow2(k) as int;
    let high = pow2((e - k) as nat) as int;
    let q = v * high;
    assert(v * (unit * high) == q * unit + 0) by (nonlinear_arith)
        requires
            q == v * high,
    ;
    lemma_fundamental_div_mod_converse((v * pow2(e)) as int, unit, q, 0);
}

proof fn lemma_rounded_scales(v: nat, e: nat)
    requires
        v >= MANTISSA_TOP,
    ensures
        rounded(v * pow2(e)) == rounded(v) * pow2(e),
{
    lemma_excess_scales(v, e);
    let k = excess_bits(v);
    lemma_pow2_adds(k, e);
    lemma_pow2_pos(k);
    lemma_pow2_pos(e);
    let u = pow2(k) as int;
    let p = pow2(e) as int;
    let q = v as int / u;
    let r = v as int % u;
    lemma_fundamental_div_mod(v as int, u);
    assert(v * p == q * (u * p) + r * p && 0 <= r * p < u * p) by (nonlinear_arith)
        requires
            v == u * q + r,
            0 <= r < u,
            p > 0,
    ;
    lemma_fundamental_div_mod_converse((v * pow2(e)) as int, u * p, q, r * p);
    assert((2 * (r * p) > u * p) == (2 * r > u)) by (nonlinear_arith)
        requires
            p > 0,
    ;
    assert((2 * (r * p) == u * p) == (2 * r == u)) by (nonlinear_arith)
        requires
            p > 0,
    ;
    assert((q + 1) * (u * p) == ((q + 1) * u) * p) by (nonlinear_arith);
    assert(q * (u * p) == (q * u) * p) by (nonlinear_arith);
}

/// A number far smaller than another one is lost when added to it or subtracted from it.
proof fn lemma_rounded_far(m: nat, high: nat, d: nat, low: nat)
    requires
        MANTISSA_TOP <= m < MANTISSA_LIMIT,
        high > low + 64,
        d < MANTISSA_LIMIT * pow2(low),
    ensures
        rounded(m * pow2(high) + d) == m * pow2(high),
        d <= m * pow2(high),
        rounded((m * pow2(high) - d) as nat) == m * pow2(high),
{
    let u = pow2(high);
    let whole = m * u;
    lemma_pow2_pos(low);
    lemma_pow2_adds(low, (high - low) as nat);
    lemma_pow2_adds(64, (high - low - 64) as nat);
    lemma_pow2_pos((high - low - 64) as nat);
    lemma2_to64();
    let p = pow2(low) as int;
    let g = pow2((high - low) as nat) as int;
    let g64 = pow2((high - low - 64) as nat) as int;
    assert(0x10000000000000000 * g64 >= 0x10000000000000000) by (nonlinear_arith)
        requires
            g64 >= 1,
    ;
    assert(p * g >= p * 0x10000000000000000) by (nonlinear_arith)
        requires
            g >= 0x10000000000000000,
            p > 0,
    ;
    assert(8 * d < u);
    assert(whole >= u) by (nonlinear_arith)
        requires
            whole == m * u,
            m >= 1,
    ;
    // Adding.
    lemma_fundamental_div_mod_converse((whole + d) as int, u as int, m as int, d as int);
    lemma_excess_at(whole + d, high);
    // Subtracting.
    if d == 0 {
        lemma_rounded_exact(m, high);
    } else if m > MANTISSA_TOP {
        let rest = u - d;
        assert(whole - d == (m - 1) * u + rest) by (nonlinear_arith)
            requires
                whole == m * u,
                rest == u - d,
        ;
        lemma_fundamental_div_mod_converse((whole - d) as int, u as int, m - 1, rest as int);
        lemma_excess_at((whole - d) as nat, high);
    } else {
        let half = pow2((high - 1) as nat);
        lemma_pow2_unfold(high);
        lemma_pow2_pos((high - 1) as nat);
        let q = MANTISSA_LIMIT as int - 1;
        let rest = half - d;
        assert(whole == (q + 1) * half) by (nonlinear_arith)
            requires
                whole == m * u,
                u == 2 * half,
                m == MANTISSA_TOP,
                q == MANTISSA_LIMIT - 1,
        ;
        assert(whole - d == q * half + rest) by (nonlinear_arith)
            requires
                whole == (q + 1) * half,
                rest == half - d,
        ;
        lemma_fundamental_div_mod_converse((whole - d) as int, half as int, q, rest as int);
        lemma_excess_at((whole - d) as nat, (high - 1) as nat);
    }
}

/// Multiplies a mantissa by a power of two.
fn shifted(x: u64, by: u32) -> (r: u128)
    requires
        x < MANTISSA_LIMIT,
        by <= 64,
    ensures
        r == x * pow2(by as nat),
        r <= 0x20_0000_0000_0000 * 0x1_0000_0000_0000_0000,
{
    let mut r: u128 = x as u128;
    let mut i: u32 = 0;
    proof {
        lemma2_to64();
    }
    while i < by
        invariant
            x < MANTISSA_LIMIT,
            i <= by <= 64,
            r == x * pow2(i as nat),
            pow2(64) == 0x1_0000_0000_0000_0000,
        decreases by - i,
    {
        proof {
            lemma_scaled_bound(x as nat, i as nat);
            lemma_pow2_unfold((i + 1) as nat);
            let p = pow2(i as nat);
            assert(x * (2 * p) == 2 * (x * p)) by (nonlinear_arith);
        }
        r = r * 2;
        i = i + 1;
    }
    proof {
        lemma_scaled_bound(x as nat, by as nat);
    }
    r
}

proof fn lemma_scaled_bound(x: nat, i: nat)
    requires
        x < MANTISSA_LIMIT,
        i <= 64,
    ensures
        x * pow2(i) <= 0x20_0000_0000_0000 * 0x1_0000_0000_0000_0000,
{
    lemma2_to64();
    if i < 64 {
        lemma_pow2_strictly_increases(i, 64);
    }
    let p = pow2(i);
    assert(x * p <= 0x20_0000_0000_0000 * 0x1_0000_0000_0000_0000) by (nonlinear_arith)
        requires
            x < 0x20_0000_0000_0000,
            p <= 0x1_0000_0000_0000_0000,
    ;
}

proof fn lemma_finite_range(m: nat, e: nat)
    requires
        m < MANTISSA_LIMIT,
        e > 0 ==> m >= MANTISSA_TOP,
    ensures
        e <= EXPONENT_MAX ==> m * pow2(e) < pow2(2098),
        e > EXPONENT_MAX ==> m * pow2(e) >= pow2(2098),
{
    lemma2_to64();
    lemma2_to64_rest();
    if e <= EXPONENT_MAX {
        lemma_pow2_adds(53, 2045);
        if e < 2045 {
            lemma_pow2_strictly_increases(e, 2045);
        }
        let p = pow2(e);
        let top = pow2(2045);
        lemma_pow2_pos(2045);
        assert(m * p < MANTISSA_LIMIT * top) by (nonlinear_arith)
            requires
                m < MANTISSA_LIMIT,
                p <= top,
                top > 0,
        ;
    } else {
        lemma_pow2_adds(52, 2046);
        if e > 2046 {
            lemma_pow2_strictly_increases(2046, e);
        }
        let p = pow2(e);
        let top = pow2(2046);
        assert(m * p >= MANTISSA_TOP * top) by (nonlinear_arith)
            requires
                m >= MANTISSA_TOP,
                p >= top,
        ;
    }
}

impl Double {
    #[verifier::type_invariant]
    spec fn valid(self) -> bool {
        &&& self.mantissa < MANTISSA_LIMIT
        &&& self.exponent <= EXPONENT_MAX
        &&& self.exponent > 0 ==> self.mantissa >= MANTISSA_TOP
    }

    spec fn size(self) -> nat {
        self.mantissa as nat * pow2(self.exponent as nat)
    }

    /// The number times two to the power of 1074.
    pub closed spec fn scaled(self) -> int {
        if self.negative {
            -(self.size() as int)
        } else {
            self.size() as int
        }
    }

    proof fn lemma_zero(self)
        ensures
            (self.size() == 0) == (self.mantissa == 0),
    {
        lemma_pow2_pos(self.exponent as nat);
        let m = self.mantissa as int;
        let p = pow2(self.exponent as nat) as int;
        assert((m * p == 0) == (m == 0)) by (nonlinear_arith)
            requires
                p > 0,
                m >= 0,
        ;
    }

    /// The number with the given binary representation; none if it stands for an infinity or for
    /// no number.
    pub fn from_bits(bits: u64) -> (r: Option<Double>)
        ensures
            match r {
                Some(d) => exponent_field(bits) != 2047 && d.scaled() == scaled_of_bits(bits),
                None => exponent_field(bits) == 2047,
            },
    {
        let field: u64 = (bits / MANTISSA_TOP) % 2048;
        let fraction: u64 = bits % MANTISSA_TOP;
        let negative = bits >= 0x8000_0000_0000_0000;
        if field == 2047 {
            None
        } else if field == 0 {
            proof {
                lemma2_to64();
                assert(fraction * 1 == fraction);
            }
            Some(Double { negative, mantissa: fraction, exponent: 0 })
        } else {
            Some(
                Double { negative, mantissa: MANTISSA_TOP + fraction, exponent: (field - 1) as u32 },
            )
        }
    }

    /// The double-precision number for a magnitude `x` times two to the power of `e`, rounded; none
    /// if it is too large.
    fn of_magnitude(negative: bool, x: u128, e: u32) -> (r: Option<Double>)
        requires
            x < MAGNITUDE_LIMIT,
            e <= EXPONENT_MAX,
        ensures
            match r {
                Some(d) => {
                    &&& d.negative == negative
                    &&& d.size() == rounded(x as nat * pow2(e as nat))
                    &&& d.size() < pow2(2098)
                },
                None => rounded(x as nat * pow2(e as nat)) >= pow2(2098),
            },
    {
        let mut q: u128 = x;
        let mut unit: u128 = 1;
        let mut k: u32 = 0;
        proof {
            lemma2_to64();
            assert(x / 1 == x);
        }
        while q >= MANTISSA_LIMIT as u128
            invariant
                x < MAGNITUDE_LIMIT,
                unit == pow2(k as nat),
                q == x / unit,
                unit >= 1,
                excess_bits(x as nat) == k + excess_bits(q as nat),
                k > 0 ==> q >= MANTISSA_TOP && x >= MANTISSA_LIMIT,
                k <= 70,
            decreases q,
        {
            proof {
                lemma_fundamental_div_mod(x as int, unit as int);
                assert(unit <= 0x8_0000_0000_0000_0000) by (nonlinear_arith)
                    requires
                        x >= unit * q,
                        q >= 0x20_0000_0000_0000,
                        x < 0x100_0000_0000_0000_0000_0000_0000_0000,
                ;
                lemma2_to64();
                lemma_pow2_adds(6, 64);
                assert(k < 70);
                lemma_div_denominator(x as int, unit as int, 2);
                lemma_pow2_unfold((k + 1) as nat);
                assert(x >= q) by (nonlinear_arith)
                    requires
                        x >= unit * q,
                        unit >= 1,
                ;
            }
            q = q / 2;
            unit = unit * 2;
            k = k + 1;
        }
        proof {
            lemma_fundamental_div_mod(x as int, unit as int);
        }
        let rest: u128 = x % unit;
        let mut m: u64 = q as u64;
        if rest > unit - rest || (rest == unit - rest && m % 2 == 1) {
            m = m + 1;
        }
        let mut exponent: u32 = e + k;
        let ghost exact = x as nat * pow2(e as nat);
        proof {
            assert(rounded(x as nat) == m * pow2(k as nat));
            lemma_pow2_adds(k as nat, e as nat);
            let u = pow2(k as nat) as int;
            let p = pow2(e as nat) as int;
            assert((m * u) * p == m * (u * p)) by (nonlinear_arith);
            if x >= MANTISSA_TOP {
                lemma_rounded_scales(x as nat, e as nat);
            } else {
                lemma_rounded_exact(x as nat, e as nat);
                assert(x as nat == m);
            }
            assert(rounded(exact) == m * pow2(exponent as nat));
        }
        if m == MANTISSA_LIMIT {
            m = MANTISSA_TOP;
            exponent = exponent + 1;
            proof {
                lemma_pow2_unfold(exponent as nat);
                let p = pow2((exponent - 1) as nat) as int;
                assert(0x10_0000_0000_0000 * (2 * p) == 0x20_0000_0000_0000 * p)
                    by (nonlinear_arith);
            }
        }
        while m < MANTISSA_TOP && exponent > 0
            invariant
                m < MANTISSA_LIMIT,
                exponent <= 3000,
                rounded(exact) == m * pow2(exponent as nat),
            decreases exponent,
        {
            proof {
                lemma_pow2_unfold(exponent as nat);
                let p = pow2((exponent - 1) as nat) as int;
                assert((2 * m) * p == m * (2 * p)) by (nonlinear_arith);
            }
            m = m * 2;
            exponent = exponent - 1;
        }
        proof {
            lemma_finite_range(m as nat, exponent as nat);
        }
        if exponent > EXPONENT_MAX {
            None
        } else {
            Some(Double { negative, mantissa: m, exponent })
        }
    }

    /// The double-precision number nearest to an integer.
    pub fn from_u64(n: u64) -> (r: Double)
        ensures
            r.scaled() == rounded_signed(n * pow2(1074)),
    {
        proof {
            lemma_integer_in_range(n as nat);
        }
        match Self::of_magnitude(false, n as u128, 1074) {
            Some(d) => d,
            None => Double { negative: false, mantissa: 0, exponent: 0 },
        }
    }

    /// The double-precision number nearest to an integer with a sign.
    pub fn from_i64(n: i64) -> (r: Double)
        ensures
            r.scaled() == rounded_signed(n * pow2(1074)),
    {
        if n >= 0 {
            Self::from_u64(n as u64)
        } else {
            let size: u64 = (-(n as i128)) as u64;
            proof {
                lemma_integer_in_range(size as nat);
                lemma_pow2_pos(1074);
                let p = pow2(1074) as int;
                assert(n * p == -(size * p) && size * p > 0) by (nonlinear_arith)
                    requires
                        n == -(size as int),
                        size > 0,
                        p > 0,
                ;
            }
            match Self::of_magnitude(true, size as u128, 1074) {
                Some(d) => d,
                None => Double { negative: false, mantissa: 0, exponent: 0 },
            }
        }
    }
}

proof fn lemma_integer_in_range(n: nat)
    requires
        n <= u64::MAX,
    ensures
        rounded(n * pow2(1074)) < pow2(2098),
{
    lemma2_to64();
    lemma2_to64_rest();
    let v = n * pow2(1074);
    lemma_rounded_at_most(v);
    lemma_pow2_adds(64, 1074);
    lemma_pow2_adds(1, 1138);
    lemma_pow2_strictly_increases(1139, 2098);
    lemma_pow2_pos(1074);
    let p = pow2(1074);
    assert(n * p <= 0x1_0000_0000_0000_0000 * p) by (nonlinear_arith)
        requires
            n <= 0x1_0000_0000_0000_0000,
    ;
}

proof fn lemma_rounded_at_most(v: nat)
    ensures
        rounded(v) <= 2 * v,
{
    let u = pow2(excess_bits(v)) as int;
    lemma_pow2_pos(excess_bits(v));
    lemma_fundamental_div_mod(v as int, u);
    let q = v as int / u;
    let r = v as int % u;
    lemma_excess_unit(v);
    assert(q >= 1 || u == 1);
    if u == 1 {
        assert(r == 0);
        assert(u * q == q && q * u == q) by (nonlinear_arith)
            requires
                u == 1,
        ;
    } else {
        assert((q + 1) * u <= 2 * (u * q)) by (nonlinear_arith)
            requires
                q >= 1,
                u > 0,
        ;
        assert(q * u == u * q) by (nonlinear_arith);
    }
}

proof fn lemma_excess_unit(v: nat)
    ensures
        excess_bits(v) > 0 ==> v / pow2(excess_bits(v)) >= 1,
        pow2(0) == 1,
    decreases v,
{
    lemma2_to64();
    if v >= MANTISSA_LIMIT {
        lemma_excess_unit(v / 2);
        let k = excess_bits(v / 2);
        lemma_pow2_unfold(k + 1);
        lemma_pow2_pos(k);
        lemma_div_denominator(v as int, 2, pow2(k) as int);
        if k == 0 {
            assert((v / 2) / 1 == v / 2);
        }
    }
}

impl Double {
    /// Whether this number is smaller than another one.
    pub fn less_than(self, other: Double) -> (r: bool)
        ensures
            r == (self.scaled() < other.scaled()),
    {
        proof {
            use_type_invariant(&self);
            use_type_invariant(&other);
            self.lemma_zero();
            other.lemma_zero();
        }
        if self.negative {
            if other.negative {
                other.smaller_than(self)
            } else {
                self.mantissa != 0 || other.mantissa != 0
            }
        } else if other.negative {
            false
        } else {
            self.smaller_than(other)
        }
    }

    /// Whether the absolute value of this number is smaller than that of another one.
    fn smaller_than(self, other: Double) -> (r: bool)
        requires
            self.valid(),
            other.valid(),
        ensures
            r == (self.size() < other.size()),
    {
        if self.exponent == other.exponent {
            proof {
                let p = pow2(self.exponent as nat) as int;
                let a = self.mantissa as int;
                let b = other.mantissa as int;
                lemma_pow2_pos(self.exponent as nat);
                assert((a < b) == (a * p < b * p)) by (nonlinear_arith)
                    requires
                        p > 0,
                ;
            }
            self.mantissa < other.mantissa
        } else if self.exponent < other.exponent {
            proof {
                lemma_exponent_order(
                    self.mantissa as nat,
                    self.exponent as nat,
                    other.mantissa as nat,
                    other.exponent as nat,
                );
            }
            true
        } else {
            proof {
                lemma_exponent_order(
                    other.mantissa as nat,
                    other.exponent as nat,
                    self.mantissa as nat,
                    self.exponent as nat,
                );
            }
            false
        }
    }

    /// Whether this number equals another one. Both zeros are equal.
    pub fn equals(self, other: Double) -> (r: bool)
        ensures
            r == (self.scaled() == other.scaled()),
    {
        !self.less_than(other) && !other.less_than(self)
    }
}

impl Double {
    /// The sum of the absolute values, or their difference, with the sign that it has.
    ///
    /// `self` is the number with the larger exponent.
    fn combine(self, other: Double, other_negative: bool) -> (r: Option<Double>)
        requires
            self.valid(),
            other.valid(),
            self.exponent >= other.exponent,
        ensures
            ({
                let other_scaled = if other_negative {
                    -(other.size() as int)
                } else {
                    other.size() as int
                };
                let exact = rounded_signed(self.scaled() + other_scaled);
                match r {
                    Some(d) => d.scaled() == exact && is_finite(exact),
                    None => !is_finite(exact),
                }
            }),
    {
        let gap: u32 = self.exponent - other.exponent;
        let low: u32 = other.exponent;
        proof {
            lemma_pow2_pos(low as nat);
            lemma_pow2_adds(gap as nat, low as nat);
            lemma_rounded_zero();
        }
        if gap > 64 {
            proof {
                let d = other.size();
                let p = pow2(low as nat);
                let m = other.mantissa;
                assert(m * p < MANTISSA_LIMIT * p) by (nonlinear_arith)
                    requires
                        m < MANTISSA_LIMIT,
                        p > 0,
                ;
                lemma_rounded_far(
                    self.mantissa as nat,
                    self.exponent as nat,
                    d,
                    low as nat,
                );
                lemma_finite_range(self.mantissa as nat, self.exponent as nat);
            }
            Some(self)
        } else {
            let high: u128 = shifted(self.mantissa, gap);
            let small: u128 = other.mantissa as u128;
            proof {
                let m = self.mantissa as int;
                let g = pow2(gap as nat) as int;
                let p = pow2(low as nat) as int;
                assert((m * g) * p == m * (g * p)) by (nonlinear_arith);
                assert(high * p == self.size());
                let h = high as int;
                let l = small as int;
                assert((h + l) * p == h * p + l * p) by (nonlinear_arith);
                assert((h - l) * p == h * p - l * p) by (nonlinear_arith);
                assert((l - h) * p == l * p - h * p) by (nonlinear_arith);
                assert(h >= l ==> (h - l) * p >= 0) by (nonlinear_arith)
                    requires
                        p > 0,
                ;
                assert(h < l ==> (l - h) * p > 0) by (nonlinear_arith)
                    requires
                        p > 0,
                ;
                assert((h + l) * p >= 0) by (nonlinear_arith)
                    requires
                        p > 0,
                        h >= 0,
                        l >= 0,
                ;
            }
            if self.negative == other_negative {
                Self::of_magnitude(self.negative, high + small, low)
            } else if high >= small {
                Self::of_magnitude(self.negative, high - small, low)
            } else {
                Self::of_magnitude(other_negative, small - high, low)
            }
        }
    }

    /// The difference of two numbers, rounded; none if it is infinite.
    pub fn minus(self, other: Double) -> (r: Option<Double>)
        ensures
            match r {
                Some(d) => {
                    &&& d.scaled() == rounded_signed(self.scaled() - other.scaled())
                    &&& is_finite(d.scaled())
                },
                None => !is_finite(rounded_signed(self.scaled() - other.scaled())),
            },
    {
        proof {
            use_type_invariant(&self);
            use_type_invariant(&other);
        }
        if self.exponent >= other.exponent {
            self.combine(other, !other.negative)
        } else {
            let flipped = Double {
                negative: !other.negative,
                mantissa: other.mantissa,
                exponent: other.exponent,
            };
            flipped.combine(self, self.negative)
        }
    }
}

proof fn lemma_rounded_zero()
    ensures
        rounded(0) == 0,
{
    lemma_rounded_exact(0, 0);
    assert(0 * pow2(0) == 0);
}

impl Double {
    /// Whether this number is a whole multiple of another one. Nothing is a multiple of zero.
    pub fn is_multiple_of(self, step: Double) -> (r: bool)
        ensures
            r == (step.scaled() != 0 && magnitude(self.scaled()) % magnitude(step.scaled()) == 0),
    {
        proof {
            use_type_invariant(&self);
            use_type_invariant(&step);
            self.lemma_zero();
            step.lemma_zero();
        }
        if step.mantissa == 0 {
            return false;
        }
        if self.exponent >= step.exponent {
            let gap: u32 = self.exponent - step.exponent;
            let mut rest: u64 = self.mantissa % step.mantissa;
            let mut i: u32 = 0;
            proof {
                lemma2_to64();
                assert(self.mantissa * 1 == self.mantissa);
            }
            while i < gap
                invariant
                    i <= gap,
                    0 < step.mantissa < MANTISSA_LIMIT,
                    rest < step.mantissa,
                    rest == (self.mantissa * pow2(i as nat)) % step.mantissa as int,
                decreases gap - i,
            {
                proof {
                    let a = self.mantissa * pow2(i as nat);
                    let m = step.mantissa as int;
                    lemma_pow2_unfold((i + 1) as nat);
                    let p = pow2(i as nat) as int;
                    let n = self.mantissa as int;
                    assert(n * (2 * p) == 2 * (n * p)) by (nonlinear_arith);
                    lemma_mul_mod_noop_right(2, a, m);
                }
                rest = (rest * 2) % step.mantissa;
                i = i + 1;
            }
            proof {
                let m = self.mantissa as int;
                let d = step.mantissa as int;
                let g = pow2(gap as nat) as int;
                let p = pow2(step.exponent as nat) as int;
                lemma_pow2_adds(gap as nat, step.exponent as nat);
                lemma_pow2_pos(step.exponent as nat);
                assert(m * (g * p) == (m * g) * p) by (nonlinear_arith);
                lemma_divides_scaled(m * g, d, p);
            }
            rest == 0
        } else {
            let gap: u32 = step.exponent - self.exponent;
            proof {
                lemma_pow2_adds(gap as nat, self.exponent as nat);
                lemma_pow2_pos(self.exponent as nat);
                let m = self.mantissa as int;
                let d = step.mantissa as int;
                let g = pow2(gap as nat) as int;
                let p = pow2(self.exponent as nat) as int;
                lemma_pow2_pos(gap as nat);
                assert(d * (g * p) == (d * g) * p) by (nonlinear_arith);
                assert(d * g > 0) by (nonlinear_arith)
                    requires
                        d > 0,
                        g > 0,
                ;
                lemma_divides_scaled(m, d * g, p);
            }
            if gap > 64 {
                proof {
                    lemma2_to64();
                    lemma_pow2_strictly_increases(64, gap as nat);
                    let d = step.mantissa as int;
                    let g = pow2(gap as nat) as int;
                    assert(d * g >= g) by (nonlinear_arith)
                        requires
                            d >= 1,
                            g >= 0,
                    ;
                    lemma_small_mod(self.mantissa as nat, (d * g) as nat);
                }
                self.mantissa == 0
            } else {
                let wide: u128 = shifted(step.mantissa, gap);
                self.mantissa as u128 % wide == 0
            }
        }
    }

    /// Whether this number lies on the grid that starts at `start` and proceeds in steps of `step`.
    pub fn is_on_grid(self, start: Double, step: Double) -> (r: bool)
        ensures
            r == on_grid(self.scaled(), start.scaled(), step.scaled()),
    {
        match self.minus(start) {
            Some(distance) => distance.is_multiple_of(step),
            None => false,
        }
    }

    /// Zero.
    pub fn zero() -> (r: Double)
        ensures
            r.scaled() == 0,
    {
        Double { negative: false, mantissa: 0, exponent: 0 }
    }
}

proof fn lemma_divides_scaled(a: int, d: int, p: int)
    requires
        a >= 0,
        d > 0,
        p > 0,
    ensures
        ((a * p) % (d * p) == 0) == (a % d == 0),
{
    let q = a / d;
    let r = a % d;
    lemma_fundamental_div_mod(a, d);
    assert(a * p == q * (d * p) + r * p && 0 <= r * p < d * p) by (nonlinear_arith)
        requires
            a == d * q + r,
            0 <= r < d,
            p > 0,
    ;
    lemma_fundamental_div_mod_converse(a * p, d * p, q, r * p);
    assert((r * p == 0) == (r == 0)) by (nonlinear_arith)
        requires
            p > 0,
            r >= 0,
    ;
}

proof fn lemma_negated_multiple(a: int, m: int)
    requires
        m > 0,
    ensures
        (a % m == 0) == ((-a) % m == 0),
{
    lemma_fundamental_div_mod(a, m);
    lemma_fundamental_div_mod(-a, m);
    let q = a / m;
    let n = (-a) / m;
    if a % m == 0 {
        assert(-a == (-q) * m + 0) by (nonlinear_arith)
            requires
                a == m * q,
        ;
        lemma_fundamental_div_mod_converse(-a, m, -q, 0);
    }
    if (-a) % m == 0 {
        assert(a == (-n) * m + 0) by (nonlinear_arith)
            requires
                -a == m * n,
        ;
        lemma_fundamental_div_mod_converse(a, m, -n, 0);
    }
}

/// Where the distance to the start is a double-precision number, a number lies on the grid if and only
/// if this distance is a whole multiple of the step.
pub proof fn exact_distances_are_multiples(value: int, start: int, step: int, m: nat, e: nat)
    requires
        m < 0x20_0000_0000_0000,
        value - start == m * pow2(e) || start - value == m * pow2(e),
        -pow2(2098) < value - start < pow2(2098),
    ensures
        step > 0 ==> (on_grid(value, start, step) <==> (value - start) % step == 0),
        step < 0 ==> (on_grid(value, start, step) <==> (value - start) % (-step) == 0),
        step == 0 ==> !on_grid(value, start, step),
{
    lemma_rounded_exact(m, e);
    lemma_pow2_pos(e);
    let d = value - start;
    assert(m * pow2(e) >= 0) by (nonlinear_arith)
        requires
            m >= 0,
            pow2(e) >= 0,
    ;
    if d < 0 {
        assert((-d) as nat == m * pow2(e));
    } else if d > 0 {
        assert(d as nat == m * pow2(e));
    } else {
        lemma_rounded_zero();
    }
    assert(rounded_signed(d) == d);
    if step > 0 {
        lemma_negated_multiple(d, step);
    } else if step < 0 {
        lemma_negated_multiple(d, -step);
    }
}

proof fn lemma_excess_top(v: nat)
    ensures
        excess_bits(v) > 0 ==> v / pow2(excess_bits(v)) >= MANTISSA_TOP,
    decreases v,
{
    lemma2_to64();
    if v >= MANTISSA_LIMIT {
        lemma_excess_top(v / 2);
        let k = excess_bits(v / 2);
        lemma_pow2_unfold(k + 1);
        lemma_pow2_pos(k);
        lemma_div_denominator(v as int, 2, pow2(k) as int);
        if k == 0 {
            assert((v / 2) / 1 == v / 2);
        }
    }
}

/// Rounding changes a number by no more than one part in two to the power of 53.
pub proof fn rounding_is_close(v: nat)
    ensures
        (rounded(v) - v) * 0x20_0000_0000_0000 <= v,
        (v - rounded(v)) * 0x20_0000_0000_0000 <= v,
{
    let k = excess_bits(v);
    let u = pow2(k) as int;
    lemma_pow2_pos(k);
    lemma_excess_top(v);
    lemma_excess_unit(v);
    lemma_fundamental_div_mod(v as int, u);
    let q = v as int / u;
    let r = v as int % u;
    assert(v == u * q + r);
    assert((q + 1) * u == u * q + u && q * u == u * q) by (nonlinear_arith);
    if k == 0 {
        assert(r == 0);
        assert(rounded(v) == v);
    } else {
        assert(u * q >= u * 0x10_0000_0000_0000) by (nonlinear_arith)
            requires
                u > 0,
                q >= 0x10_0000_0000_0000,
        ;
    }
}

/// Rounding a number with a sign is rounding its magnitude.
pub proof fn rounding_is_symmetric(v: nat)
    ensures
        rounded_signed(v as int) == rounded(v),
        rounded_signed(-(v as int)) == -(rounded(v) as int),
{
    if v == 0 {
        lemma_rounded_zero();
    }
}

/// A number in the middle between two that have 53 significant bits is rounded to the one whose last bit
/// is zero.
pub proof fn middle_is_rounded_to_even(q: nat, k: nat)
    requires
        0x10_0000_0000_0000 <= q < 0x20_0000_0000_0000,
        k >= 1,
    ensures
        q % 2 == 0 ==> rounded(q * pow2(k) + pow2((k - 1) as nat)) == q * pow2(k),
        q % 2 == 1 ==> rounded(q * pow2(k) + pow2((k - 1) as nat)) == (q + 1) * pow2(k),
{
    lemma_pow2_unfold(k);
    lemma_pow2_pos((k - 1) as nat);
    let unit = pow2(k) as int;
    let half = pow2((k - 1) as nat) as int;
    let v = (q * pow2(k) + pow2((k - 1) as nat)) as int;
    assert(unit == 2 * half);
    lemma_fundamental_div_mod_converse(v, unit, q as int, half);
    lemma_excess_at(v as nat, k);
}

/// Only the rounded distance to the start decides whether a number lies on a grid, and only the size of
/// the step. A number that is infinitely far away doesn't.
pub proof fn rounded_distances_decide(
    value: int,
    start: int,
    other_value: int,
    other_start: int,
    step: int,
)
    requires
        rounded_signed(value - start) == rounded_signed(other_value - other_start),
    ensures
        on_grid(value, start, step) <==> on_grid(other_value, other_start, step),
        on_grid(value, start, step) <==> on_grid(value, start, -step),
        rounded_signed(value - start) >= pow2(2098) || rounded_signed(value - start) <= -pow2(2098)
            ==> !on_grid(value, start, step),
{
}

/// The parts of a binary representation: the sign bit, eleven bits for the exponent, and 52 bits for
/// the fraction. The smallest exponent is that of the numbers without a leading bit.
pub proof fn binary_representations_are_read(exponent: u64, fraction: u64)
    requires
        exponent < 2047,
        fraction < 0x10_0000_0000_0000,
    ensures
        ({
            let bits = (exponent * 0x10_0000_0000_0000 + fraction) as u64;
            let negated = (0x8000_0000_0000_0000 + bits) as u64;
            &&& exponent == 0 ==> scaled_of_bits(bits) == fraction
            &&& exponent > 0 ==> scaled_of_bits(bits) == (0x10_0000_0000_0000 + fraction) * pow2(
                (exponent - 1) as nat,
            )
            &&& scaled_of_bits(negated) == -scaled_of_bits(bits)
        }),
{
    let bits = exponent * 0x10_0000_0000_0000 + fraction;
    let negated = 0x8000_0000_0000_0000 + bits;
    assert(bits / 0x10_0000_0000_0000 == exponent && bits % 0x10_0000_0000_0000 == fraction);
    assert(negated / 0x10_0000_0000_0000 == exponent + 2048 && negated % 0x10_0000_0000_0000
        == fraction);
}

} // verus!
