//! Real numbers as the renderer carries them: IEEE 754 binary64 values, held by
//! their bit patterns. Everything here is decided on the bits alone; no
//! arithmetic is ever performed on a `Scalar`.
use vstd::prelude::*;
use vstd::arithmetic::power2::pow2;
use vstd::std_specs::cmp::PartialEqSpecImpl;

verus! {

/// The sign bit of a binary64 pattern.
pub const SIGN_BIT: u64 = 0x8000_0000_0000_0000;

/// The pattern of positive infinity: every pattern whose magnitude part is
/// larger than this one is a NaN.
pub const INFINITY_BITS: u64 = 0x7FF0_0000_0000_0000;

/// The pattern of `1.0`.
pub const ONE_BITS: u64 = 0x3FF0_0000_0000_0000;

/// The pattern of `1.0e-4`, the tolerance used throughout the renderer.
pub const EPSILON_BITS: u64 = 0x3F1A_36E2_EB1C_432D;

/// Two to the power of 52: the patterns of one binade.
pub const BINADE: u64 = 0x0010_0000_0000_0000;

/// The pattern of `0.1`.
pub const ONE_TENTH_BITS: u64 = 0x3FB9_9999_9999_999A;

/// The pattern of `0.2`.
pub const ONE_FIFTH_BITS: u64 = 0x3FC9_9999_9999_999A;

/// The pattern of `0.25`.
pub const QUARTER_BITS: u64 = 0x3FD0_0000_0000_0000;

/// The pattern of `0.3`.
pub const THREE_TENTHS_BITS: u64 = 0x3FD3_3333_3333_3333;

/// The pattern of `0.5`.
pub const HALF_BITS: u64 = 0x3FE0_0000_0000_0000;

/// The pattern of `0.6`.
pub const THREE_FIFTHS_BITS: u64 = 0x3FE3_3333_3333_3333;

/// The pattern of `0.7`.
pub const SEVEN_TENTHS_BITS: u64 = 0x3FE6_6666_6666_6666;

/// The pattern of `0.8`.
pub const FOUR_FIFTHS_BITS: u64 = 0x3FE9_9999_9999_999A;

/// The pattern of `0.9`.
pub const NINE_TENTHS_BITS: u64 = 0x3FEC_CCCC_CCCC_CCCD;

/// The pattern of `1.5`.
pub const THREE_HALVES_BITS: u64 = 0x3FF8_0000_0000_0000;

/// The pattern of `2.0`.
pub const TWO_BITS: u64 = 0x4000_0000_0000_0000;

/// The pattern of `10.0`.
pub const TEN_BITS: u64 = 0x4024_0000_0000_0000;

/// The pattern of `-10.0`.
pub const MINUS_TEN_BITS: u64 = 0xC024_0000_0000_0000;

/// The pattern of `200.0`.
pub const TWO_HUNDRED_BITS: u64 = 0x4069_0000_0000_0000;

/// A binary64 value, identified by its bit pattern. Two scalars are `==` when
/// they are equal as numbers: a NaN equals nothing, not even itself, and the
/// two zeros equal each other. Contracts compare patterns.
#[derive(Clone, Copy, Debug)]
pub struct Scalar {
    pub bits: u64,
}

impl PartialEq for Scalar {
    /// IEEE `==`.
    fn eq(&self, other: &Self) -> (r: bool) {
        self.same(*other)
    }
}

impl PartialEqSpecImpl for Scalar {
    open spec fn obeys_eq_spec() -> bool {
        true
    }

    open spec fn eq_spec(&self, other: &Self) -> bool {
        self.same_spec(*other)
    }
}

impl Scalar {
    /// The pattern with the sign bit cleared.
    pub open spec fn magnitude(self) -> u64 {
        if self.bits >= SIGN_BIT {
            (self.bits - SIGN_BIT) as u64
        } else {
            self.bits
        }
    }

    /// Whether the sign bit is set (true of `-0.0` and of some NaNs too).
    pub open spec fn sign(self) -> bool {
        self.bits >= SIGN_BIT
    }

    /// Whether the pattern is a NaN.
    pub open spec fn nan(self) -> bool {
        self.magnitude() > INFINITY_BITS
    }

    /// The place of a value on the number line, as an integer that grows with
    /// the value. Both zeros have rank 0, the infinities are the extremes. The
    /// rank of a NaN has no meaning; `nan` is always tested first.
    pub open spec fn rank(self) -> int {
        if self.sign() {
            -(self.magnitude() as int)
        } else {
            self.magnitude() as int
        }
    }

    /// The key by which intersections are sorted: the rank, with every NaN
    /// placed above positive infinity.
    pub open spec fn sort_key(self) -> int {
        if self.nan() {
            INFINITY_BITS as int + 1
        } else {
            self.rank()
        }
    }

    /// IEEE `<`: false as soon as one side is a NaN.
    pub open spec fn lt_spec(self, other: Scalar) -> bool {
        !self.nan() && !other.nan() && self.rank() < other.rank()
    }

    /// IEEE `<=`.
    pub open spec fn le_spec(self, other: Scalar) -> bool {
        !self.nan() && !other.nan() && self.rank() <= other.rank()
    }

    /// IEEE `==`: a NaN equals nothing, the two zeros equal each other.
    pub open spec fn same_spec(self, other: Scalar) -> bool {
        !self.nan() && !other.nan() && self.rank() == other.rank()
    }

    /// Whether the value is `0.0` or `-0.0`.
    pub open spec fn zero_spec(self) -> bool {
        self.magnitude() == 0
    }

    /// The pattern of the negated value: the sign bit flipped.
    pub open spec fn neg_spec(self) -> Scalar {
        if self.bits >= SIGN_BIT {
            Scalar { bits: (self.bits - SIGN_BIT) as u64 }
        } else {
            Scalar { bits: (self.bits + SIGN_BIT) as u64 }
        }
    }

    /// The pattern of the absolute value: the sign bit cleared.
    pub open spec fn abs_spec(self) -> Scalar {
        Scalar { bits: self.magnitude() }
    }

    /// The exponent field of the pattern.
    pub open spec fn exponent(self) -> int {
        self.magnitude() as int / BINADE as int
    }

    /// The fraction field of the pattern.
    pub open spec fn fraction(self) -> int {
        self.magnitude() as int % BINADE as int
    }

    /// The integer `m` for which the absolute value is `m * 2^scale`.
    pub open spec fn significand(self) -> int {
        if self.exponent() == 0 {
            self.fraction()
        } else {
            BINADE + self.fraction()
        }
    }

    /// The power of two by which the significand is weighted.
    pub open spec fn scale(self) -> int {
        if self.exponent() == 0 {
            -1074
        } else {
            self.exponent() - 1075
        }
    }

    /// The significand with the sign of the value: the value is this integer
    /// times `2^scale`.
    pub open spec fn signed_significand(self) -> int {
        if self.sign() {
            -self.significand()
        } else {
            self.significand()
        }
    }

    /// The value counted in units of `2^unit`, for a unit that is not coarser
    /// than the scale of the value.
    pub open spec fn in_units(self, unit: int) -> int {
        self.signed_significand() * pow2((self.scale() - unit) as nat)
    }

    /// Whether the value of `self` is less than the value of `other`, both
    /// counted in the finer of their two units. An infinity counts as the value
    /// that its pattern would have as a number, beyond every finite one.
    pub open spec fn below(self, other: Scalar) -> bool {
        let unit = if self.scale() <= other.scale() {
            self.scale()
        } else {
            other.scale()
        };
        self.in_units(unit) < other.in_units(unit)
    }

    /// The largest integer that is not above the value. For an infinity this
    /// is an integer beyond every 64-bit one, of the right sign; for a NaN it
    /// has no meaning.
    pub open spec fn floor_spec(self) -> int {
        let m = self.significand();
        let k = self.scale();
        if k >= 0 {
            if self.sign() {
                -(m * pow2(k as nat))
            } else {
                m * pow2(k as nat)
            }
        } else {
            let d = pow2((-k) as nat) as int;
            if self.sign() {
                -((m + d - 1) / d)
            } else {
                m / d
            }
        }
    }

    /// The floor of the value as a 64-bit integer: 0 for a NaN, and the nearest
    /// 64-bit integer where the floor is out of range.
    pub open spec fn floor_to_int_spec(self) -> int {
        if self.nan() {
            0
        } else if self.floor_spec() < i64::MIN {
            i64::MIN as int
        } else if self.floor_spec() > i64::MAX {
            i64::MAX as int
        } else {
            self.floor_spec()
        }
    }

    /// Whether the floor of the value, as a 64-bit integer, is even.
    pub open spec fn floor_even_spec(self) -> bool {
        self.floor_to_int_spec() % 2 == 0
    }

    /// The value with the given pattern.
    pub fn from_bits(bits: u64) -> (s: Scalar)
        ensures
            s.bits == bits,
    {
        Scalar { bits }
    }

    /// The pattern of the value.
    pub fn to_bits(self) -> (bits: u64)
        ensures
            bits == self.bits,
    {
        self.bits
    }

    /// `0.0`
    pub fn zero() -> (s: Scalar)
        ensures
            s.bits == 0,
    {
        Scalar { bits: 0 }
    }

    /// `1.0`
    pub fn one() -> (s: Scalar)
        ensures
            s.bits == ONE_BITS,
    {
        Scalar { bits: ONE_BITS }
    }

    /// The tolerance `1.0e-4`.
    pub fn epsilon() -> (s: Scalar)
        ensures
            s.bits == EPSILON_BITS,
    {
        Scalar { bits: EPSILON_BITS }
    }

    fn magnitude_bits(self) -> (m: u64)
        ensures
            m == self.magnitude(),
    {
        if self.bits >= SIGN_BIT {
            self.bits - SIGN_BIT
        } else {
            self.bits
        }
    }

    /// Whether the value is not a number.
    pub fn is_nan(self) -> (r: bool)
        ensures
            r == self.nan(),
    {
        self.magnitude_bits() > INFINITY_BITS
    }

    /// Whether the sign bit is set.
    pub fn is_sign_negative(self) -> (r: bool)
        ensures
            r == self.sign(),
    {
        self.bits >= SIGN_BIT
    }

    /// Whether the value equals zero, of either sign.
    pub fn is_zero(self) -> (r: bool)
        ensures
            r == self.zero_spec(),
    {
        self.magnitude_bits() == 0
    }

    /// The negated value. Exact: only the sign bit changes.
    pub fn neg(self) -> (r: Scalar)
        ensures
            r == self.neg_spec(),
    {
        if self.bits >= SIGN_BIT {
            Scalar { bits: self.bits - SIGN_BIT }
        } else {
            Scalar { bits: self.bits + SIGN_BIT }
        }
    }

    /// The absolute value. Exact: only the sign bit changes.
    pub fn abs(self) -> (r: Scalar)
        ensures
            r == self.abs_spec(),
    {
        Scalar { bits: self.magnitude_bits() }
    }

    /// IEEE `<`.
    pub fn lt(self, other: Scalar) -> (r: bool)
        ensures
            r == self.lt_spec(other),
    {
        if self.is_nan() || other.is_nan() {
            return false;
        }
        let a: u64 = self.magnitude_bits();
        let b: u64 = other.magnitude_bits();
        if self.bits >= SIGN_BIT {
            if other.bits >= SIGN_BIT {
                a > b
            } else {
                a != 0 || b != 0
            }
        } else {
            if other.bits >= SIGN_BIT {
                false
            } else {
                a < b
            }
        }
    }

    /// IEEE `<=`.
    pub fn le(self, other: Scalar) -> (r: bool)
        ensures
            r == self.le_spec(other),
    {
        if self.is_nan() || other.is_nan() {
            return false;
        }
        !other.lt(self)
    }

    /// IEEE `>`.
    pub fn gt(self, other: Scalar) -> (r: bool)
        ensures
            r == other.lt_spec(self),
    {
        other.lt(self)
    }

    /// IEEE `>=`.
    pub fn ge(self, other: Scalar) -> (r: bool)
        ensures
            r == other.le_spec(self),
    {
        other.le(self)
    }

    /// IEEE `==`.
    pub fn same(self, other: Scalar) -> (r: bool)
        ensures
            r == self.same_spec(other),
    {
        if self.is_nan() || other.is_nan() {
            return false;
        }
        !self.lt(other) && !other.lt(self)
    }

    /// Whether `self` sorts strictly before `other` when NaN counts as larger
    /// than every number.
    pub fn sorts_before(self, other: Scalar) -> (r: bool)
        ensures
            r == (self.sort_key() < other.sort_key()),
    {
        if self.is_nan() {
            false
        } else if other.is_nan() {
            true
        } else {
            self.lt(other)
        }
    }

    /// The floor of the value, converted to a 64-bit integer the way a cast
    /// does it: a NaN gives 0, a floor out of range gives the nearest bound.
    pub fn floor_to_int(self) -> (n: i64)
        ensures
            n == self.floor_to_int_spec(),
    {
        if self.is_nan() {
            return 0;
        }
        let mag: u64 = self.magnitude_bits();
        let negative: bool = self.bits >= SIGN_BIT;
        let e: u64 = mag / BINADE;
        let f: u64 = mag % BINADE;
        if e >= 1086 {
            proof {
                lemma_huge(self);
            }
            return if negative {
                i64::MIN
            } else {
                i64::MAX
            };
        }
        if e < 1023 {
            proof {
                lemma_small(self);
            }
            return if negative && mag != 0 {
                -1
            } else {
                0
            };
        }
        let m: u64 = BINADE + f;
        assert(self.exponent() == e && self.fraction() == f && self.significand() == m);
        if e >= 1075 {
            let shift: u64 = e - 1075;
            proof {
                vstd::arithmetic::power2::lemma2_to64();
                if shift < 10 {
                    vstd::arithmetic::power2::lemma_pow2_strictly_increases(shift as nat, 10);
                }
                assert(m * pow2(shift as nat) <= 0x001F_FFFF_FFFF_FFFF * 1024) by (nonlinear_arith)
                    requires
                        m <= 0x001F_FFFF_FFFF_FFFF,
                        pow2(shift as nat) <= 1024,
                ;
                vstd::bits::lemma_u64_shl_is_mul(m, shift);
            }
            let whole: u64 = m << shift;
            assert(whole == self.significand() * pow2(self.scale() as nat));
            assert(whole <= i64::MAX);
            if negative {
                -(whole as i64)
            } else {
                whole as i64
            }
        } else {
            let k: u64 = 1075 - e;
            proof {
                vstd::arithmetic::power2::lemma2_to64();
                vstd::arithmetic::power2::lemma2_to64_rest();
                if k < 52 {
                    vstd::arithmetic::power2::lemma_pow2_strictly_increases(k as nat, 52);
                }
                vstd::arithmetic::power2::lemma_pow2_pos(k as nat);
                vstd::bits::lemma_u64_shl_is_mul(1, k);
            }
            let d: u64 = 1u64 << k;
            assert(d == pow2((-self.scale()) as nat));
            let q: u64 = m / d;
            let r: u64 = m % d;
            proof {
                lemma_ceiling(m as int, d as int);
                assert(q <= m) by (nonlinear_arith)
                    requires
                        q == m / d,
                        d >= 1,
                ;
            }
            if negative {
                if r == 0 {
                    -(q as i64)
                } else {
                    -(q as i64) - 1
                }
            } else {
                q as i64
            }
        }
    }

    /// Whether the floor of the value, as a 64-bit integer, is even.
    pub fn floor_is_even(self) -> (even: bool)
        ensures
            even == self.floor_even_spec(),
    {
        let n: i64 = self.floor_to_int();
        if n >= 0 {
            (n as u64) % 2 == 0
        } else if n == i64::MIN {
            true
        } else {
            ((-n) as u64) % 2 == 0
        }
    }
}

/// Rounding a quotient up: `(m + d - 1) / d` is `m / d` when `d` divides `m`,
/// and one more otherwise.
proof fn lemma_ceiling(m: int, d: int)
    requires
        0 <= m,
        0 < d,
    ensures
        (m + d - 1) / d == if m % d == 0 {
            m / d
        } else {
            m / d + 1
        },
{
    let q = m / d;
    let r = m % d;
    vstd::arithmetic::div_mod::lemma_fundamental_div_mod(m, d);
    vstd::arithmetic::div_mod::lemma_mod_bound(m, d);
    if r == 0 {
        vstd::arithmetic::div_mod::lemma_fundamental_div_mod_converse(m + d - 1, d, q, d - 1);
    } else {
        assert(m + d - 1 == (q + 1) * d + (r - 1)) by (nonlinear_arith)
            requires
                m == d * q + r,
        ;
        vstd::arithmetic::div_mod::lemma_fundamental_div_mod_converse(m + d - 1, d, q + 1, r - 1);
    }
}

/// A value of exponent 1086 or more lies beyond every 64-bit integer.
proof fn lemma_huge(x: Scalar)
    requires
        !x.nan(),
        x.exponent() >= 1086,
    ensures
        x.sign() ==> x.floor_spec() <= i64::MIN,
        !x.sign() ==> x.floor_spec() > i64::MAX,
{
    let k = x.scale();
    let m = x.significand();
    vstd::arithmetic::power2::lemma2_to64();
    if k > 11 {
        vstd::arithmetic::power2::lemma_pow2_strictly_increases(11, k as nat);
    }
    assert(m * pow2(k as nat) >= 0x0010_0000_0000_0000 * 2048) by (nonlinear_arith)
        requires
            m >= 0x0010_0000_0000_0000,
            pow2(k as nat) >= 2048,
    ;
}

/// A value of exponent below 1023 lies strictly between -1 and 1.
proof fn lemma_small(x: Scalar)
    requires
        x.exponent() < 1023,
    ensures
        x.floor_spec() == if x.sign() && x.magnitude() != 0 {
            -1int
        } else {
            0int
        },
{
    let k = x.scale();
    let m = x.significand();
    let d = pow2((-k) as nat) as int;
    vstd::arithmetic::power2::lemma2_to64_rest();
    if -k > 53 {
        vstd::arithmetic::power2::lemma_pow2_strictly_increases(53, (-k) as nat);
    }
    assert(0 <= m < d);
    vstd::arithmetic::div_mod::lemma_basic_div(m, d);
    lemma_ceiling(m, d);
    vstd::arithmetic::div_mod::lemma_small_mod(m as nat, d as nat);
    if x.magnitude() != 0 {
        assert(m != 0);
    }
}

/// The floor is what its name says. Where the value is a whole number of
/// units, the floor is the value. Otherwise the value, counted in units of
/// `2^scale`, lies between the floor and the next integer, and may equal the
/// floor only.
pub proof fn lemma_floor_brackets(x: Scalar)
    ensures
        x.scale() >= 0 ==> x.floor_spec() == x.signed_significand() * pow2(x.scale() as nat),
        x.scale() < 0 ==> x.floor_spec() * pow2((-x.scale()) as nat) <= x.signed_significand() < (
        x.floor_spec() + 1) * pow2((-x.scale()) as nat),
{
    let m = x.significand();
    let k = x.scale();
    if k < 0 {
        let d = pow2((-k) as nat) as int;
        vstd::arithmetic::power2::lemma_pow2_pos((-k) as nat);
        let q = m / d;
        let r = m % d;
        vstd::arithmetic::div_mod::lemma_fundamental_div_mod(m, d);
        vstd::arithmetic::div_mod::lemma_mod_bound(m, d);
        lemma_ceiling(m, d);
        let n = x.floor_spec();
        assert(n * d <= x.signed_significand() < (n + 1) * d) by (nonlinear_arith)
            requires
                m == d * q + r,
                0 <= r < d,
                x.signed_significand() == if x.sign() {
                    -m
                } else {
                    m
                },
                n == if x.sign() {
                    if r == 0 {
                        -q
                    } else {
                        -(q + 1)
                    }
                } else {
                    q
                },
        ;
    } else {
        assert(-(m * pow2(k as nat)) == (-m) * pow2(k as nat)) by (nonlinear_arith);
    }
}

/// Of two patterns without sign, the larger pattern has the larger value.
proof fn lemma_magnitudes_grow_with_values(a: Scalar, b: Scalar)
    requires
        a.magnitude() < b.magnitude(),
    ensures
        a.scale() <= b.scale(),
        a.significand() < b.significand() * pow2((b.scale() - a.scale()) as nat),
        0 <= a.significand(),
        0 < b.significand(),
{
    let span = BINADE as int;
    let x = a.magnitude() as int;
    let y = b.magnitude() as int;
    vstd::arithmetic::div_mod::lemma_div_is_ordered(x, y, span);
    vstd::arithmetic::div_mod::lemma_fundamental_div_mod(x, span);
    vstd::arithmetic::div_mod::lemma_fundamental_div_mod(y, span);
    vstd::arithmetic::div_mod::lemma_mod_bound(x, span);
    vstd::arithmetic::div_mod::lemma_mod_bound(y, span);
    vstd::arithmetic::div_mod::lemma_div_pos_is_pos(x, span);
    vstd::arithmetic::power2::lemma2_to64();
    let d = b.scale() - a.scale();
    if a.exponent() == b.exponent() {
        assert(a.fraction() < b.fraction()) by (nonlinear_arith)
            requires
                x == span * a.exponent() + a.fraction(),
                y == span * b.exponent() + b.fraction(),
                a.exponent() == b.exponent(),
                x < y,
        ;
        assert(d == 0);
        assert(a.significand() < b.significand());
        assert(b.significand() * pow2(0) == b.significand()) by (nonlinear_arith)
            requires
                pow2(0) == 1,
        ;
    } else if d == 0 {
        assert(a.exponent() == 0 && b.exponent() == 1);
        assert(a.significand() < b.significand());
        assert(b.significand() * pow2(0) == b.significand()) by (nonlinear_arith)
            requires
                pow2(0) == 1,
        ;
    } else {
        assert(a.exponent() < b.exponent());
        assert(d >= 1);
        assert(a.significand() < span * 2);
        assert(b.exponent() >= 1);
        if d > 1 {
            vstd::arithmetic::power2::lemma_pow2_strictly_increases(1, d as nat);
        }
        assert(b.significand() * pow2(d as nat) >= span * 2) by (nonlinear_arith)
            requires
                b.significand() >= span,
                pow2(d as nat) >= 2,
                span > 0,
        ;
    }
    if b.exponent() == 0 {
        assert(b.fraction() > 0) by (nonlinear_arith)
            requires
                y == span * b.exponent() + b.fraction(),
                b.exponent() == 0,
                y > 0,
        ;
    }
}

/// The rank orders the patterns as their values are ordered: a pattern has
/// the smaller rank exactly when it has the smaller value.
pub proof fn lemma_rank_orders_values(a: Scalar, b: Scalar)
    ensures
        a.rank() < b.rank() <==> a.below(b),
{
    let unit = if a.scale() <= b.scale() {
        a.scale()
    } else {
        b.scale()
    };
    let pa = pow2((a.scale() - unit) as nat) as int;
    let pb = pow2((b.scale() - unit) as nat) as int;
    let ma = a.significand();
    let mb = b.significand();
    vstd::arithmetic::power2::lemma_pow2_pos((a.scale() - unit) as nat);
    vstd::arithmetic::power2::lemma_pow2_pos((b.scale() - unit) as nat);
    vstd::arithmetic::power2::lemma2_to64();
    if a.magnitude() < b.magnitude() {
        lemma_magnitudes_grow_with_values(a, b);
        assert(unit == a.scale());
        assert(pa == 1);
        assert(ma * pa == ma) by (nonlinear_arith)
            requires
                pa == 1,
        ;
        assert(pb == pow2((b.scale() - a.scale()) as nat));
        assert(ma * pa < mb * pb);
    } else if b.magnitude() < a.magnitude() {
        lemma_magnitudes_grow_with_values(b, a);
        assert(unit == b.scale());
        assert(pb == 1);
        assert(mb * pb == mb) by (nonlinear_arith)
            requires
                pb == 1,
        ;
        assert(pa == pow2((a.scale() - b.scale()) as nat));
        assert(mb * pb < ma * pa);
    } else {
        assert(a.scale() == b.scale() && ma == mb && pa == 1 && pb == 1);
    }
    assert(0 <= ma * pa) by (nonlinear_arith)
        requires
            0 <= ma,
            0 < pa,
    ;
    assert(0 <= mb * pb) by (nonlinear_arith)
        requires
            0 <= mb,
            0 < pb,
    ;
    assert((-ma) * pa == -(ma * pa)) by (nonlinear_arith);
    assert((-mb) * pb == -(mb * pb)) by (nonlinear_arith);
    if a.magnitude() == 0 {
        assert(ma == 0);
        assert(ma * pa == 0) by (nonlinear_arith)
            requires
                ma == 0,
        ;
    } else {
        lemma_magnitudes_grow_with_values(Scalar { bits: 0 }, a);
        assert(0 < ma * pa) by (nonlinear_arith)
            requires
                0 < ma,
                0 < pa,
        ;
    }
    if b.magnitude() == 0 {
        assert(mb == 0);
        assert(mb * pb == 0) by (nonlinear_arith)
            requires
                mb == 0,
        ;
    } else {
        lemma_magnitudes_grow_with_values(Scalar { bits: 0 }, b);
        assert(0 < mb * pb) by (nonlinear_arith)
            requires
                0 < mb,
                0 < pb,
        ;
    }
}

} // verus!
