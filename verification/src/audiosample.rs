//! Sample encodings and their arithmetic.
//!
//! A sample is one instantaneous amplitude in some numeric encoding. Every
//! encoding says how two samples are mixed, how one is attenuated or amplified
//! by a gain factor, and which value stands for silence.
use vstd::prelude::*;

verus! {

/// A gain factor: the ratio of two integers, `numer() / denom()`, whose
/// denominator is above zero.
#[derive(Clone, Copy, Debug)]
pub struct Factor {
    num: i32,
    den: u32,
}

impl Factor {
    #[verifier::type_invariant]
    spec fn denominator_is_positive(self) -> bool {
        self.den > 0
    }

    /// The numerator of the ratio.
    pub closed spec fn numer(self) -> int {
        self.num as int
    }

    /// The denominator of the ratio.
    pub closed spec fn denom(self) -> int {
        self.den as int
    }

    /// The factor `num / den`; there is none with a denominator of zero.
    pub fn new(num: i32, den: u32) -> (factor: Option<Factor>)
        ensures
            den == 0 <==> factor is None,
            factor matches Some(f) ==> f.numer() == num && f.denom() == den,
    {
        if den == 0 {
            None
        } else {
            Some(Factor { num, den })
        }
    }

    /// The factor `n / 1`.
    pub fn whole(n: i32) -> (factor: Factor)
        ensures
            factor.numer() == n,
            factor.denom() == 1,
    {
        Factor { num: n, den: 1 }
    }

    /// The factor `1 / 1`, which leaves every sample as it is.
    pub fn unity() -> (factor: Factor)
        ensures
            factor.numer() == 1,
            factor.denom() == 1,
    {
        Factor { num: 1, den: 1 }
    }

    /// The numerator, as a machine integer.
    pub fn numerator(&self) -> (n: i32)
        ensures
            n == self.numer(),
    {
        self.num
    }

    /// The denominator, as a machine integer; it is never zero.
    pub fn denominator(&self) -> (d: u32)
        ensures
            d == self.denom(),
            d > 0,
    {
        proof {
            use_type_invariant(self);
        }
        self.den
    }
}

/// An audio sample: a value with the arithmetic of its encoding.
///
/// Mixing is additive superposition of two signals and saturates at the
/// encoding's bounds; scaling is linear gain; silence is the value of zero
/// magnitude. An encoding describes its arithmetic by three relations, each
/// with a default that holds of everything: an encoding that states none of
/// them promises nothing of its results.
pub trait AudioSample: Copy + Default {
    /// Whether `sum` may be what this sample and `other` mix to.
    open spec fn combines_to(self, other: Self, sum: Self) -> bool {
        true
    }

    /// Whether `scaled` may be this sample with the gain `factor` applied.
    open spec fn scales_to(self, factor: Factor, scaled: Self) -> bool {
        true
    }

    /// Whether this sample may stand for zero magnitude.
    open spec fn is_silence(self) -> bool {
        true
    }

    /// Mixes `other` into this sample.
    fn audio_add(&self, other: Self) -> (sum: Self)
        ensures
            self.combines_to(other, sum),
    ;

    /// Applies the gain `scale` to this sample.
    fn audio_scale(&self, scale: Factor) -> (scaled: Self)
        ensures
            self.scales_to(scale, scaled),
    ;

    /// The silent sample.
    fn audio_default() -> (silent: Self)
        ensures
            silent.is_silence(),
    ;
}

/// The signed magnitude that the centered 8-bit sample `v` stands for.
pub open spec fn offset_of(v: u8) -> int {
    v - 128
}

/// `x` limited to the magnitudes that a centered 8-bit sample can hold.
pub open spec fn saturate(x: int) -> int {
    if x < -128 {
        -128
    } else if x > 127 {
        127
    } else {
        x
    }
}

/// The centered 8-bit sample of magnitude `saturate(x)`.
pub open spec fn centered(x: int) -> u8 {
    (saturate(x) + 128) as u8
}

/// `n / d` rounded down, for `d > 0`.
pub open spec fn floor_ratio(n: int, d: int) -> int {
    n / d
}

/// What two centered 8-bit samples mix to: the sample whose magnitude is the
/// sum of their magnitudes, saturated.
pub open spec fn combine_centered(a: u8, b: u8) -> u8 {
    centered(offset_of(a) + offset_of(b))
}

/// A centered 8-bit sample with a gain applied: the sample whose magnitude is
/// the product of its magnitude and the factor, rounded down and saturated.
pub open spec fn scale_centered(v: u8, factor: Factor) -> u8 {
    centered(floor_ratio(offset_of(v) * factor.numer(), factor.denom()))
}

/// Centered unsigned 8-bit samples: 128 is silence, and a sample `v` stands for
/// the magnitude `v - 128`.
impl AudioSample for u8 {
    open spec fn combines_to(self, other: u8, sum: u8) -> bool {
        sum == combine_centered(self, other)
    }

    open spec fn scales_to(self, factor: Factor, scaled: u8) -> bool {
        scaled == scale_centered(self, factor)
    }

    open spec fn is_silence(self) -> bool {
        self == 128u8
    }

    fn audio_add(&self, other: u8) -> (sum: u8) {
        if other < 128u8 {
            self.saturating_sub(128u8 - other)
        } else {
            self.saturating_add(other - 128u8)
        }
    }

    fn audio_scale(&self, scale: Factor) -> (scaled: u8) {
        let num: i64 = scale.numerator() as i64;
        let den: i64 = scale.denominator() as i64;
        let offset: i64 = *self as i64 - 128;
        assert(-0x80_0000_0000 <= offset * num <= 0x80_0000_0000) by (nonlinear_arith)
            requires
                -128 <= offset <= 127,
                -0x8000_0000 <= num < 0x8000_0000,
        ;
        let product: i64 = offset * num;
        let high: i64 = 128 * den;
        let low: i64 = -high;
        if product < low {
            proof {
                lemma_floor_ratio_bounds(product as int, den as int, -128);
            }
            0u8
        } else if product >= high {
            proof {
                lemma_floor_ratio_bounds(product as int, den as int, 128);
            }
            255u8
        } else {
            proof {
                lemma_floor_ratio_bounds(product as int, den as int, -128);
                lemma_floor_ratio_bounds(product as int, den as int, 128);
                lemma_floor_ratio_shift(product as int, den as int, 128);
            }
            ((product - low) / den) as u8
        }
    }

    fn audio_default() -> (silent: u8) {
        128u8
    }
}

/// Mixing two centered 8-bit samples does not depend on their order, and the
/// saturated sum of their magnitudes, centered again, lies between 0 and 255.
pub proof fn lemma_combine_commutes(a: u8, b: u8)
    ensures
        combine_centered(a, b) == combine_centered(b, a),
        combine_centered(a, b) == saturate(offset_of(a) + offset_of(b)) + 128,
        0 <= saturate(offset_of(a) + offset_of(b)) + 128 <= 255,
        forall|sum: u8| a.combines_to(b, sum) <==> b.combines_to(a, sum),
{
}

/// Silence mixed into a centered 8-bit sample leaves the sample as it is, on
/// either side.
pub proof fn lemma_silence_is_neutral(v: u8, silent: u8)
    requires
        silent.is_silence(),
    ensures
        combine_centered(v, silent) == v,
        combine_centered(silent, v) == v,
{
}

/// A gain of one, which is any factor whose numerator equals its denominator,
/// leaves a centered 8-bit sample as it is.
pub proof fn lemma_unity_scale_is_identity(v: u8, factor: Factor)
    requires
        factor.denom() > 0,
        factor.numer() == factor.denom(),
    ensures
        scale_centered(v, factor) == v,
        forall|scaled: u8| v.scales_to(factor, scaled) <==> scaled == v,
{
    let d = factor.denom();
    let off = offset_of(v);
    assert((off * d) / d == off) by (nonlinear_arith)
        requires
            d > 0,
    ;
}

/// A ratio rounded down is below `k` exactly when its numerator is below `k * d`.
proof fn lemma_floor_ratio_bounds(n: int, d: int, k: int)
    requires
        d > 0,
    ensures
        floor_ratio(n, d) < k <==> n < k * d,
        floor_ratio(n, d) >= k <==> n >= k * d,
{
    vstd::arithmetic::div_mod::lemma_fundamental_div_mod(n, d);
    vstd::arithmetic::div_mod::lemma_mod_bound(n, d);
    let q = n / d;
    assert(q < k <==> n < k * d) by (nonlinear_arith)
        requires
            d > 0,
            n == d * q + n % d,
            0 <= n % d < d,
    ;
}

/// Adding `k` whole denominators to the numerator adds `k` to the ratio.
proof fn lemma_floor_ratio_shift(n: int, d: int, k: int)
    requires
        d > 0,
    ensures
        floor_ratio(n + k * d, d) == floor_ratio(n, d) + k,
{
    vstd::arithmetic::div_mod::lemma_fundamental_div_mod(n, d);
    vstd::arithmetic::div_mod::lemma_mod_bound(n, d);
    let q = n / d;
    let r = n % d;
    assert(n + k * d == d * (q + k) + r) by (nonlinear_arith)
        requires
            n == d * q + r,
    ;
    vstd::arithmetic::div_mod::lemma_fundamental_div_mod_converse(n + k * d, d, q + k, r);
}

} // verus!
