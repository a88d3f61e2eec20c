//! Single-precision numbers by their bit patterns.
//!
//! A binary32 number travels through this crate as its 32 bits. Every finite one is a whole
//! number of units of 2^-149, the smallest positive value, so comparisons, products and rounding
//! are stated over integers.
use vstd::arithmetic::div_mod::*;
use vstd::arithmetic::mul::*;
use vstd::arithmetic::power2::*;
use vstd::prelude::*;

verus! {

/// What a bit pattern stands for.
pub enum Single {
    NotANumber,
    PositiveInfinity,
    NegativeInfinity,
    /// A finite value, counted in units of 2^-149.
    Finite(int),
}

/// The units of a finite magnitude: 8 exponent bits over 23 fraction bits.
pub open spec fn units(magnitude: nat) -> nat {
    let exponent = magnitude / 0x80_0000;
    let fraction = magnitude % 0x80_0000;
    if exponent == 0 {
        fraction
    } else {
        (0x80_0000 + fraction) * pow2((exponent - 1) as nat)
    }
}

/// The number that `bits` encodes.
pub open spec fn single(bits: u32) -> Single {
    let negative = bits >= 0x8000_0000;
    let magnitude = bits as nat % 0x8000_0000;
    if magnitude > 0x7f80_0000 {
        Single::NotANumber
    } else if magnitude == 0x7f80_0000 {
        if negative {
            Single::NegativeInfinity
        } else {
            Single::PositiveInfinity
        }
    } else if negative {
        Single::Finite(-units(magnitude))
    } else {
        Single::Finite(units(magnitude) as int)
    }
}

/// The units of the number one.
pub open spec fn one() -> nat {
    pow2(149)
}

/// `x <= 0`, which no NaN meets.
pub open spec fn at_most_zero(x: Single) -> bool {
    match x {
        Single::NotANumber => false,
        Single::PositiveInfinity => false,
        Single::NegativeInfinity => true,
        Single::Finite(u) => u <= 0,
    }
}

/// `x > n`, which no NaN meets.
pub open spec fn above(x: Single, n: nat) -> bool {
    match x {
        Single::NotANumber => false,
        Single::PositiveInfinity => true,
        Single::NegativeInfinity => false,
        Single::Finite(u) => u > n * one(),
    }
}

proof fn units_below(magnitude: nat)
    ensures
        magnitude >= 0x80_0000 ==> units(magnitude) < 0x80_0000 * pow2(magnitude / 0x80_0000),
        magnitude >= 0x80_0000 ==> units(magnitude) >= 0x80_0000 * pow2(
            (magnitude / 0x80_0000 - 1) as nat,
        ),
        magnitude < 0x80_0000 ==> units(magnitude) == magnitude,
{
    if magnitude >= 0x80_0000 {
        let e = magnitude / 0x80_0000;
        let f = magnitude % 0x80_0000;
        let p = pow2((e - 1) as nat);
        lemma_pow2_unfold(e);
        lemma_pow2_pos((e - 1) as nat);
        assert((0x80_0000 + f) * p < 0x80_0000 * (2 * p)) by (nonlinear_arith)
            requires
                f < 0x80_0000,
                p > 0,
        ;
        assert((0x80_0000 + f) * p >= 0x80_0000 * p) by (nonlinear_arith);
    }
}

/// Magnitudes are ordered as the values they encode.
pub proof fn units_are_ordered(a: nat, b: nat)
    requires
        a < b,
    ensures
        units(a) < units(b),
{
    units_below(a);
    units_below(b);
    let ea = a / 0x80_0000;
    let eb = b / 0x80_0000;
    if ea == eb {
        if ea > 0 {
            let p = pow2((ea - 1) as nat);
            lemma_pow2_pos((ea - 1) as nat);
            let fa = a % 0x80_0000;
            let fb = b % 0x80_0000;
            assert((0x80_0000 + fa) * p < (0x80_0000 + fb) * p) by (nonlinear_arith)
                requires
                    fa < fb,
                    p > 0,
            ;
        }
    } else {
        lemma_pow2_pos((eb - 1) as nat);
        if ea == 0 {
            assert(0x80_0000 * pow2((eb - 1) as nat) >= 0x80_0000) by (nonlinear_arith)
                requires
                    pow2((eb - 1) as nat) > 0,
            ;
        } else if ea < eb - 1 {
            lemma_pow2_strictly_increases(ea, (eb - 1) as nat);
        }
    }
}

/// The pattern `0x3f80_0000` encodes one.
pub proof fn one_is_encoded()
    ensures
        units(0x3f80_0000) == one(),
{
    lemma_pow2_adds(23, 126);
    lemma2_to64();
}

/// Whether the number is zero or negative.
pub fn not_positive(bits: u32) -> (yes: bool)
    ensures
        yes == at_most_zero(single(bits)),
{
    let magnitude: u32 = bits % 0x8000_0000;
    proof {
        if magnitude > 0 {
            units_are_ordered(0, magnitude as nat);
        }
    }
    magnitude <= 0x7f80_0000 && (magnitude == 0 || bits >= 0x8000_0000)
}

/// Whether the number is greater than four.
pub fn above_four(bits: u32) -> (yes: bool)
    ensures
        yes == above(single(bits), 4),
{
    let magnitude: u32 = bits % 0x8000_0000;
    proof {
        lemma_pow2_adds(23, 128);
        lemma_pow2_adds(2, 149);
        lemma2_to64();
        assert(units(0x4080_0000) == 4 * one());
        lemma_pow2_pos(149);
        if magnitude < 0x4080_0000 {
            units_are_ordered(magnitude as nat, 0x4080_0000);
        } else if magnitude > 0x4080_0000 {
            units_are_ordered(0x4080_0000, magnitude as nat);
        }
    }
    magnitude <= 0x7f80_0000 && bits < 0x8000_0000 && magnitude > 0x4080_0000
}

/// The distance between neighbouring single-precision numbers around `p` units: numbers keep 24
/// significant binary digits.
pub open spec fn spacing(p: nat) -> nat
    decreases p,
{
    if p < 0x100_0000 {
        1
    } else {
        2 * spacing(p / 2)
    }
}

/// The single-precision number nearest to `p` units; of two equally near ones, the even one.
pub open spec fn rounded(p: nat) -> nat {
    let step = spacing(p);
    let low = p / step;
    let rest = p % step;
    if 2 * rest > step || (2 * rest == step && low % 2 == 1) {
        (low + 1) * step
    } else {
        low * step
    }
}

/// A finite value limited to the range from minus one to one.
pub open spec fn clamped(u: int) -> int {
    if u > one() {
        one() as int
    } else if u < -one() {
        -one()
    } else {
        u
    }
}

/// The 16-bit sample of a finite value of `u` units: the value limited to the range from minus
/// one to one, times 32767 in single precision, without its fractional part.
pub open spec fn finite_pcm(u: int) -> int {
    let c = clamped(u);
    if c < 0 {
        -(rounded(((-c) * 32767) as nat) / one())
    } else {
        (rounded((c * 32767) as nat) / one()) as int
    }
}

/// The 16-bit sample of a number. A NaN becomes silence.
pub open spec fn pcm(x: Single) -> int {
    match x {
        Single::NotANumber => 0,
        Single::PositiveInfinity => 32767,
        Single::NegativeInfinity => -32767,
        Single::Finite(u) => finite_pcm(u),
    }
}

proof fn spacing_scales(p: nat, j: nat)
    requires
        p >= 0x80_0000,
    ensures
        spacing(p * pow2(j)) == spacing(p) * pow2(j),
    decreases j,
{
    if j == 0 {
        lemma2_to64();
        assert(p * 1 == p);
    } else {
        let h = pow2((j - 1) as nat);
        lemma_pow2_unfold(j);
        lemma_pow2_pos((j - 1) as nat);
        assert(p * pow2(j) == 2 * (p * h)) by (nonlinear_arith)
            requires
                pow2(j) == 2 * h,
        ;
        assert(p * h >= p) by (nonlinear_arith)
            requires
                h >= 1,
        ;
        spacing_scales(p, (j - 1) as nat);
        assert(spacing(p) * pow2(j) == 2 * (spacing(p) * h)) by (nonlinear_arith)
            requires
                pow2(j) == 2 * h,
        ;
    }
}

proof fn spacing_is_positive(p: nat)
    ensures
        spacing(p) > 0,
    decreases p,
{
    if p >= 0x100_0000 {
        spacing_is_positive(p / 2);
    }
}

/// Rounding commutes with doubling any number of times, from 24 significant digits on.
proof fn rounding_scales(p: nat, j: nat)
    requires
        p >= 0x80_0000,
    ensures
        rounded(p * pow2(j)) == rounded(p) * pow2(j),
{
    let k = pow2(j);
    let u = spacing(p);
    let q = p / u;
    let r = p % u;
    lemma_pow2_pos(j);
    spacing_is_positive(p);
    spacing_scales(p, j);
    lemma_fundamental_div_mod(p as int, u as int);
    assert(p * k == q * (u * k) + r * k) by (nonlinear_arith)
        requires
            p == u * q + r,
    ;
    assert(0 <= r * k < u * k) by (nonlinear_arith)
        requires
            r < u,
            k > 0,
    ;
    lemma_fundamental_div_mod_converse((p * k) as int, (u * k) as int, q as int, (r * k) as int);
    assert(2 * r > u ==> 2 * (r * k) > u * k) by (nonlinear_arith)
        requires
            k > 0,
    ;
    assert(2 * r < u ==> 2 * (r * k) < u * k) by (nonlinear_arith)
        requires
            k > 0,
    ;
    assert(2 * r == u ==> 2 * (r * k) == u * k) by (nonlinear_arith);
    assert((q + 1) * (u * k) == ((q + 1) * u) * k) by (nonlinear_arith);
    assert(q * (u * k) == (q * u) * k) by (nonlinear_arith);
}

proof fn silence_is_exact()
    ensures
        rounded(0) == 0,
        rounded(0) / one() == 0,
{
    lemma_pow2_pos(149);
    assert(spacing(0) == 1);
    lemma_basic_div(0, one() as int);
}

proof fn full_scale_is_exact()
    ensures
        rounded(one() * 32767) == 32767 * one(),
{
    lemma_pow2_adds(9, 140);
    lemma2_to64();
    let p: nat = 32767 * 512;
    assert(spacing(p) == 1);
    assert(rounded(p) == p) by {
        lemma_div_basics(p as int);
        lemma_mod_self_0(1);
    }
    rounding_scales(p, 140);
    assert(p * pow2(140) == one() * 32767) by (nonlinear_arith)
        requires
            p == 32767 * 512,
            one() == 512 * pow2(140),
    ;
    assert(32767 * one() == one() * 32767) by (nonlinear_arith);
}

proof fn rounding_at_most_doubles(p: nat)
    ensures
        rounded(p) <= 2 * p + 1,
{
    let u = spacing(p);
    spacing_is_positive(p);
    lemma_fundamental_div_mod(p as int, u as int);
    let q = p / u;
    let r = p % u;
    if 2 * r > u || (2 * r == u && q % 2 == 1) {
        assert((q + 1) * u <= 2 * (u * q + r)) by (nonlinear_arith)
            requires
                2 * r >= u,
                q >= 0,
                u > 0,
        ;
    } else {
        assert(q * u <= u * q + r) by (nonlinear_arith)
            requires
                r >= 0,
        ;
    }
}

proof fn lemma_truncate_common_factor(q: nat, d: nat, k: nat)
    requires
        d > 0,
        k > 0,
    ensures
        k * q / (k * d) == q / d,
{
    assert(k * d > 0) by (nonlinear_arith)
        requires
            d > 0,
            k > 0,
    ;
    lemma_fundamental_div_mod(q as int, d as int);
    let h = q / d;
    let r = q % d;
    assert(k * q == h * (k * d) + k * r) by (nonlinear_arith)
        requires
            q == d * h + r,
    ;
    assert(0 <= k * r < k * d) by (nonlinear_arith)
        requires
            r < d,
            k > 0,
    ;
    lemma_fundamental_div_mod_converse((k * q) as int, (k * d) as int, h as int, (k * r) as int);
}

/// The product of a 24-digit significand and 32767, rounded to a number of steps.
fn rounded_product(significand: u64) -> (r: (u64, u32))
    requires
        0x80_0000 <= significand < 0x100_0000,
    ensures
        r.0 <= 0x100_0000,
        r.1 == 15 ==> r.0 <= 0xff_fe00,
        r.1 == 14 || r.1 == 15,
        rounded((significand * 32767) as nat) == r.0 * pow2(r.1 as nat),
{
    let product: u64 = significand * 32767;
    let bits: u32 = if product < 0x40_0000_0000 {
        14
    } else {
        15
    };
    let step: u64 = if product < 0x40_0000_0000 {
        0x4000
    } else {
        0x8000
    };
    proof {
        lemma2_to64();
        reveal_with_fuel(spacing, 17);
        assert(spacing(product as nat) == step);
    }
    let low: u64 = product / step;
    let rest: u64 = product % step;
    if 2 * rest > step || (2 * rest == step && low % 2 == 1) {
        (low + 1, bits)
    } else {
        (low, bits)
    }
}

/// The 16-bit level of a magnitude below one.
fn small_level(magnitude: u32) -> (level: i16)
    requires
        magnitude < 0x3f80_0000,
    ensures
        0 <= level,
        level == rounded(units(magnitude as nat) * 32767) / one(),
{
    let exponent: u32 = magnitude / 0x80_0000;
    let ghost u = units(magnitude as nat);
    if exponent == 0 {
        proof {
            let p = u * 32767;
            lemma2_to64();
            lemma2_to64_rest();
            lemma_pow2_strictly_increases(40, 149);
            rounding_at_most_doubles(p);
            assert(p < 0x40_0000_0000);
            lemma_basic_div(rounded(p) as int, one() as int);
        }
        return 0;
    }
    let significand: u64 = 0x80_0000 + (magnitude % 0x80_0000) as u64;
    let (q, bits) = rounded_product(significand);
    let shift: u32 = 150 - bits - exponent;
    let ghost e1 = (exponent - 1) as nat;
    let ghost product = (significand * 32767) as nat;
    proof {
        assert(u * 32767 == product * pow2(e1)) by (nonlinear_arith)
            requires
                u == significand * pow2(e1),
                product == significand * 32767,
        ;
        rounding_scales(product, e1);
        lemma_pow2_adds(bits as nat, e1);
        lemma_pow2_adds((bits + e1) as nat, shift as nat);
        lemma_pow2_pos((bits + e1) as nat);
        lemma_pow2_pos(shift as nat);
        let k = pow2((bits + e1) as nat);
        assert(rounded(product) * pow2(e1) == k * q) by (nonlinear_arith)
            requires
                rounded(product) == q * pow2(bits as nat),
                k == pow2(bits as nat) * pow2(e1),
        ;
        lemma_truncate_common_factor(q as nat, pow2(shift as nat), k);
    }
    if shift >= 26 {
        proof {
            lemma2_to64();
            if shift > 26 {
                lemma_pow2_strictly_increases(26, shift as nat);
            }
            lemma_basic_div(q as int, pow2(shift as nat) as int);
        }
        return 0;
    }
    proof {
        vstd::bits::lemma_u64_shr_is_div(q, shift as u64);
        lemma2_to64();
        if shift > 9 {
            if shift > 10 {
                lemma_pow2_strictly_increases(10, shift as nat);
            }
            lemma_div_is_ordered_by_denominator(q as int, 1024, pow2(shift as nat) as int);
            assert(q as int / 1024 <= 0x4000);
        } else {
            assert(bits == 15 && pow2(shift as nat) == 512);
            assert(q as int / 512 <= 32767);
        }
        assert(q as nat / pow2(shift as nat) <= 32767);
    }
    (q >> (shift as u64)) as i16
}

/// Converts a sample in the range from minus one to one to 16 bits.
pub fn pcm16(bits: u32) -> (sample: i16)
    ensures
        sample == pcm(single(bits)),
{
    let magnitude: u32 = bits % 0x8000_0000;
    if magnitude > 0x7f80_0000 {
        return 0;
    }
    let negative: bool = bits >= 0x8000_0000;
    let level: i16 = if magnitude >= 0x3f80_0000 {
        32767
    } else {
        small_level(magnitude)
    };
    proof {
        one_is_encoded();
        if magnitude < 0x3f80_0000 {
            units_are_ordered(magnitude as nat, 0x3f80_0000);
        } else {
            full_scale_is_exact();
            lemma_pow2_pos(149);
            lemma_div_by_multiple(32767, one() as int);
            if magnitude > 0x3f80_0000 {
                units_are_ordered(0x3f80_0000, magnitude as nat);
            }
        }
        let u = units(magnitude as nat) as int;
        lemma_pow2_pos(149);
        if magnitude > 0 {
            units_are_ordered(0, magnitude as nat);
        } else {
            silence_is_exact();
        }
        assert(magnitude < 0x7f80_0000 ==> finite_pcm(u) == level);
        assert(clamped(-u) == -clamped(u));
        assert(level == 0 || clamped(u) > 0);
    }
    if negative {
        -level
    } else {
        level
    }
}

proof fn spacing_fits(p: nat)
    ensures
        p < 0x100_0000 * spacing(p),
        spacing(p) > 1 ==> p >= 0x80_0000 * spacing(p),
    decreases p,
{
    if p >= 0x100_0000 {
        spacing_fits(p / 2);
        spacing_is_positive(p / 2);
    }
}

proof fn spacing_grows(p: nat, q: nat)
    requires
        p <= q,
    ensures
        spacing(p) == spacing(q) || 2 * spacing(p) <= spacing(q),
    decreases q,
{
    if q >= 0x100_0000 {
        spacing_is_positive(q / 2);
        if p >= 0x100_0000 {
            spacing_grows(p / 2, q / 2);
        }
    }
}

proof fn rounding_stays_between(p: nat)
    ensures
        rounded(p) <= 0x100_0000 * spacing(p),
        spacing(p) > 1 ==> rounded(p) >= 0x80_0000 * spacing(p),
{
    let u = spacing(p);
    let q = p / u;
    spacing_is_positive(p);
    spacing_fits(p);
    lemma_fundamental_div_mod(p as int, u as int);
    assert(q < 0x100_0000) by (nonlinear_arith)
        requires
            p == u * q + p % u,
            p < 0x100_0000 * u,
            u > 0,
            p % u >= 0,
    ;
    assert((q + 1) * u <= 0x100_0000 * u) by (nonlinear_arith)
        requires
            q < 0x100_0000,
            u > 0,
    ;
    assert(q * u <= (q + 1) * u) by (nonlinear_arith)
        requires
            u > 0,
    ;
    if u > 1 {
        assert(q >= 0x80_0000) by (nonlinear_arith)
            requires
                p == u * q + p % u,
                p >= 0x80_0000 * u,
                u > 0,
                p % u < u,
        ;
        assert(q * u >= 0x80_0000 * u) by (nonlinear_arith)
            requires
                q >= 0x80_0000,
                u > 0,
        ;
    }
}

/// Rounding keeps the order of numbers.
pub proof fn rounding_keeps_order(p: nat, q: nat)
    requires
        p <= q,
    ensures
        rounded(p) <= rounded(q),
{
    let u = spacing(p);
    spacing_is_positive(p);
    spacing_grows(p, q);
    if u == spacing(q) {
        let a = p / u;
        let b = q / u;
        lemma_fundamental_div_mod(p as int, u as int);
        lemma_fundamental_div_mod(q as int, u as int);
        lemma_div_is_ordered(p as int, q as int, u as int);
        if a < b {
            assert((a + 1) * u <= b * u) by (nonlinear_arith)
                requires
                    a < b,
                    u > 0,
            ;
            assert(a * u <= (a + 1) * u && b * u <= (b + 1) * u) by (nonlinear_arith)
                requires
                    u > 0,
            ;
        } else {
            assert(p % u <= q % u);
            assert(a * u <= (a + 1) * u) by (nonlinear_arith)
                requires
                    u > 0,
            ;
        }
    } else {
        rounding_stays_between(p);
        rounding_stays_between(q);
    }
}

/// Negating a sample negates its 16-bit sample.
pub proof fn pcm_is_odd(u: int)
    ensures
        pcm(Single::Finite(-u)) == -pcm(Single::Finite(u)),
{
    lemma_pow2_pos(149);
    if u == 0 {
        silence_is_exact();
    }
    assert(clamped(-u) == -clamped(u));
}

/// Louder samples do not become softer.
pub proof fn pcm_keeps_order(u: int, v: int)
    requires
        u <= v,
    ensures
        pcm(Single::Finite(u)) <= pcm(Single::Finite(v)),
{
    lemma_pow2_pos(149);
    let a = clamped(u);
    let b = clamped(v);
    assert(a <= b);
    if a >= 0 {
        rounding_keeps_order((a * 32767) as nat, (b * 32767) as nat);
        lemma_div_is_ordered(
            rounded((a * 32767) as nat) as int,
            rounded((b * 32767) as nat) as int,
            one() as int,
        );
    } else if b < 0 {
        rounding_keeps_order(((-b) * 32767) as nat, ((-a) * 32767) as nat);
        lemma_div_is_ordered(
            rounded(((-b) * 32767) as nat) as int,
            rounded(((-a) * 32767) as nat) as int,
            one() as int,
        );
    } else {
        lemma_div_pos_is_pos(rounded(((-a) * 32767) as nat) as int, one() as int);
        lemma_div_pos_is_pos(rounded((b * 32767) as nat) as int, one() as int);
    }
}

/// Samples from one on are at full scale, and so are samples from minus one down.
pub proof fn pcm_is_limited(u: int)
    ensures
        u >= one() ==> pcm(Single::Finite(u)) == 32767,
        u <= -one() ==> pcm(Single::Finite(u)) == -32767,
{
    full_scale_is_exact();
    lemma_pow2_pos(149);
    lemma_div_by_multiple(32767, one() as int);
}

/// No 16-bit sample exceeds full scale.
pub proof fn pcm_is_bounded(x: Single)
    ensures
        -32767 <= pcm(x) <= 32767,
{
    if let Single::Finite(u) = x {
        pcm_is_limited(one() as int);
        pcm_is_limited(-one());
        if u > one() || u < -one() {
            pcm_is_limited(u);
        } else {
            pcm_keeps_order(u, one() as int);
            pcm_keeps_order(-one(), u);
        }
    }
}

/// A number limited to the range from minus one to one. A NaN stays one.
pub open spec fn limited(x: Single) -> Single {
    match x {
        Single::NotANumber => Single::NotANumber,
        Single::PositiveInfinity => Single::Finite(one() as int),
        Single::NegativeInfinity => Single::Finite(-one()),
        Single::Finite(u) => Single::Finite(clamped(u)),
    }
}

/// Limiting a number to the range from minus one to one does not change its 16-bit sample.
pub proof fn limiting_changes_nothing(x: Single)
    ensures
        pcm(limited(x)) == pcm(x),
{
    pcm_is_limited(one() as int);
    pcm_is_limited(-one());
    if let Single::Finite(u) = x {
        assert(clamped(clamped(u)) == clamped(u));
    }
}

/// The first patterns stand for their own number of units.
pub proof fn small_patterns_count_units(bits: u32)
    requires
        bits < 0x100_0000,
    ensures
        single(bits) == Single::Finite(bits as int),
{
    lemma2_to64();
    let e = bits as nat / 0x80_0000;
    assert(e == 0 || e == 1);
    assert(bits as nat % 0x8000_0000 == bits);
    if e == 1 {
        assert((0x80_0000 + bits as nat % 0x80_0000) * pow2(0) == bits) by (nonlinear_arith)
            requires
                pow2(0) == 1,
                0x80_0000 + bits as nat % 0x80_0000 == bits,
        ;
    }
}

/// From there on the next exponent doubles a number.
pub proof fn next_exponent_doubles(bits: u32, u: int)
    requires
        0x80_0000 <= bits < 0x7f00_0000,
        single(bits) == Single::Finite(u),
    ensures
        single((bits + 0x80_0000) as u32) == Single::Finite(2 * u),
{
    let e = bits as nat / 0x80_0000;
    let f = bits as nat % 0x80_0000;
    lemma_pow2_unfold(e);
    assert((0x80_0000 + f) * (2 * pow2((e - 1) as nat)) == 2 * ((0x80_0000 + f) * pow2(
        (e - 1) as nat,
    ))) by (nonlinear_arith);
}

/// The last patterns are infinity and what is not a number.
pub proof fn last_patterns_are_not_finite(bits: u32)
    requires
        0x7f80_0000 <= bits < 0x8000_0000,
    ensures
        bits == 0x7f80_0000 ==> single(bits) == Single::PositiveInfinity,
        bits > 0x7f80_0000 ==> single(bits) == Single::NotANumber,
{
}

/// The upper half of the patterns are the negatives of the lower half.
pub proof fn upper_patterns_negate(bits: u32)
    requires
        bits < 0x8000_0000,
    ensures
        single((bits + 0x8000_0000) as u32) == match single(bits) {
            Single::NotANumber => Single::NotANumber,
            Single::PositiveInfinity => Single::NegativeInfinity,
            Single::NegativeInfinity => Single::PositiveInfinity,
            Single::Finite(u) => Single::Finite(-u),
        },
{
}

proof fn spacing_is_a_power(p: nat) -> (j: nat)
    ensures
        spacing(p) == pow2(j),
    decreases p,
{
    lemma2_to64();
    if p < 0x100_0000 {
        0
    } else {
        let j = spacing_is_a_power(p / 2);
        lemma_pow2_unfold(j + 1);
        j + 1
    }
}

/// A number of 24 digits, doubled `j` times, has a pattern.
proof fn number_has_a_pattern(n: nat, j: nat) -> (bits: u32)
    requires
        0x80_0000 <= n <= 0x100_0000,
        j < 200,
    ensures
        bits == j * 0x80_0000 + n,
        single(bits) == Single::Finite((n * pow2(j)) as int),
{
    let bits = (j * 0x80_0000 + n) as u32;
    if n == 0x100_0000 {
        lemma_pow2_unfold(j + 1);
        assert(bits as nat / 0x80_0000 == j + 2);
        assert(bits as nat % 0x80_0000 == 0);
        assert(0x80_0000 * (2 * pow2(j)) == 0x100_0000 * pow2(j)) by (nonlinear_arith);
    } else {
        assert(bits as nat / 0x80_0000 == j + 1);
        assert(bits as nat % 0x80_0000 == n - 0x80_0000);
    }
    bits
}

/// From 24 digits on, numbers are whole multiples of the distance between their neighbours.
proof fn numbers_are_spaced(magnitude: nat, j: nat) -> (m: nat)
    ensures
        units(magnitude) < 0x80_0000 * pow2(j) || units(magnitude) == m * pow2(j),
{
    let e = magnitude / 0x80_0000;
    let f = magnitude % 0x80_0000;
    lemma_pow2_pos(j);
    if e == 0 {
        assert(f < 0x80_0000 * pow2(j)) by (nonlinear_arith)
            requires
                f < 0x80_0000,
                pow2(j) > 0,
        ;
        0
    } else if e - 1 >= j {
        lemma_pow2_adds(j, (e - 1 - j) as nat);
        let m = (0x80_0000 + f) * pow2((e - 1 - j) as nat);
        assert((0x80_0000 + f) * (pow2(j) * pow2((e - 1 - j) as nat)) == m * pow2(j))
            by (nonlinear_arith)
            requires
                m == (0x80_0000 + f) * pow2((e - 1 - j) as nat),
        ;
        m
    } else {
        units_below(magnitude);
        if e < j {
            lemma_pow2_strictly_increases(e, j);
        }
        0
    }
}

/// The rounded number has a pattern, which is even where it is an even number of steps.
proof fn rounded_number_has_a_pattern(p: nat) -> (product: u32)
    requires
        p < 32767 * one(),
    ensures
        single(product) == Single::Finite(rounded(p) as int),
        product < 0x8000_0000,
        spacing(p) == 1 ==> product == p,
        spacing(p) > 1 ==> rounded(p) > 0 && product as nat % 2 == (rounded(p) / spacing(p)) % 2,
{
    let j = spacing_is_a_power(p);
    let u = spacing(p);
    let q = p / u;
    let r = p % u;
    let n = if 2 * r > u || (2 * r == u && q % 2 == 1) {
        q + 1
    } else {
        q
    };
    spacing_is_positive(p);
    spacing_fits(p);
    lemma_fundamental_div_mod(p as int, u as int);
    lemma_div_by_multiple(n as int, u as int);
    assert(rounded(p) == n * u);
    assert(q < 0x100_0000) by (nonlinear_arith)
        requires
            p == u * q + r,
            p < 0x100_0000 * u,
            u > 0,
            r >= 0,
    ;
    if u == 1 {
        lemma_div_basics(p as int);
        assert(r == 0);
        assert(p < 0x100_0000);
        small_patterns_count_units(p as u32);
        p as u32
    } else {
        assert(q >= 0x80_0000) by (nonlinear_arith)
            requires
                p == u * q + r,
                p >= 0x80_0000 * u,
                u > 0,
                r < u,
        ;
        assert(n * u > 0) by (nonlinear_arith)
            requires
                n > 0,
                u > 0,
        ;
        lemma2_to64();
        if j >= 150 {
            if j > 150 {
                lemma_pow2_strictly_increases(150, j);
            }
            lemma_pow2_unfold(150);
            lemma_pow2_pos(149);
        }
        let product = number_has_a_pattern(n, j);
        assert(j * 0x80_0000 == 2 * (j * 0x40_0000));
        product
    }
}

/// No number is nearer to `p` units than the rounded one, and one that is as near leaves it even.
proof fn nearest_is_near(p: nat, j: nat, magnitude: nat)
    requires
        spacing(p) == pow2(j),
    ensures
        ({
            let far = if rounded(p) >= p {
                rounded(p) - p
            } else {
                p - rounded(p)
            };
            let w = units(magnitude);
            let other_far = if w >= p {
                w - p
            } else {
                p - w
            };
            &&& far <= other_far
            &&& far <= p
            &&& far == p ==> rounded(p) == 0
            &&& far == other_far && w != rounded(p) ==> spacing(p) > 1 && (rounded(p)
                / spacing(p)) % 2 == 0
            &&& spacing(p) == 1 ==> rounded(p) == p
        }),
{
    let u = spacing(p);
    let q = p / u;
    let r = p % u;
    let up = 2 * r > u || (2 * r == u && q % 2 == 1);
    let n = if up {
        q + 1
    } else {
        q
    };
    let w = units(magnitude);
    spacing_is_positive(p);
    spacing_fits(p);
    lemma_fundamental_div_mod(p as int, u as int);
    lemma_div_by_multiple(n as int, u as int);
    assert((q + 1) * u == u * q + u) by (nonlinear_arith);
    assert(q * u == u * q) by (nonlinear_arith);
    if u == 1 {
        lemma_div_basics(p as int);
        assert(r == 0);
    } else {
        assert(q >= 0x80_0000) by (nonlinear_arith)
            requires
                p == u * q + r,
                p >= 0x80_0000 * u,
                u > 0,
                r < u,
        ;
        assert(u * q >= 0x80_0000 * u) by (nonlinear_arith)
            requires
                q >= 0x80_0000,
                u > 0,
        ;
    }
    let m = numbers_are_spaced(magnitude, j);
    if w == m * u {
        if m < q {
            assert(m * u <= u * q - u) by (nonlinear_arith)
                requires
                    m + 1 <= q,
                    u > 0,
            ;
        } else if m > q + 1 {
            assert(m * u >= u * q + 2 * u) by (nonlinear_arith)
                requires
                    m >= q + 2,
                    u > 0,
            ;
        }
    }
}

/// No number is nearer to `p` units than the rounded one; one that is as near leaves its pattern even.
proof fn rounding_is_nearest(p: nat, product: u32, other: u32)
    requires
        single(product) == Single::Finite(rounded(p) as int),
        product < 0x8000_0000,
        spacing(p) == 1 ==> product == p,
        spacing(p) > 1 ==> rounded(p) > 0 && product as nat % 2 == (rounded(p) / spacing(p)) % 2,
    ensures
        match single(other) {
            Single::Finite(w) => {
                let far = if rounded(p) >= p {
                    rounded(p) - p
                } else {
                    p - rounded(p)
                };
                let other_far = if w >= p {
                    w - p
                } else {
                    p - w
                };
                &&& far <= other_far
                &&& far == other_far && other != product ==> product % 2 == 0
            },
            _ => true,
        },
{
    if let Single::Finite(w) = single(other) {
        let j = spacing_is_a_power(p);
        let magnitude = other as nat % 0x8000_0000;
        nearest_is_near(p, j, magnitude);
        spacing_is_positive(p);
        if other < 0x8000_0000 && w == rounded(p) {
            assert(units(product as nat) == units(magnitude));
            if magnitude < product {
                units_are_ordered(magnitude, product as nat);
            } else if product < magnitude {
                units_are_ordered(product as nat, magnitude);
            }
            assert(other == product);
        }
    }
}

/// Below one, a 16-bit sample is the whole part of a product: of the number that is nearest to 32767
/// times the sample, and of two such numbers the one with the even pattern.
pub proof fn samples_are_rounded_products(bits: u32, u: int, sample: i16) -> (product: (u32, int))
    requires
        call_ensures(pcm16, (bits,), sample),
        bits < 0x3f80_0000,
        single(bits) == Single::Finite(u),
    ensures
        sample == product.1 / pow2(149) as int,
        single(product.0) == Single::Finite(product.1),
        forall|other: u32|
            match #[trigger] single(other) {
                Single::Finite(w) => {
                    let exact = 32767 * u;
                    let far = if product.1 >= exact {
                        product.1 - exact
                    } else {
                        exact - product.1
                    };
                    let other_far = if w >= exact {
                        w - exact
                    } else {
                        exact - w
                    };
                    &&& far <= other_far
                    &&& far == other_far && other != product.0 ==> product.0 % 2 == 0
                },
                _ => true,
            },
{
    one_is_encoded();
    units_are_ordered(bits as nat, 0x3f80_0000);
    let p = (u * 32767) as nat;
    let product = rounded_number_has_a_pattern(p);
    assert forall|other: u32|
        match #[trigger] single(other) {
            Single::Finite(w) => {
                let exact = 32767 * u;
                let far = if rounded(p) >= exact {
                    rounded(p) - exact
                } else {
                    exact - rounded(p)
                };
                let other_far = if w >= exact {
                    w - exact
                } else {
                    exact - w
                };
                &&& far <= other_far
                &&& far == other_far && other != product ==> product % 2 == 0
            },
            _ => true,
        } by {
        rounding_is_nearest(p, product, other);
    }
    (product, rounded(p) as int)
}

/// From one on a 16-bit sample is at full scale, infinity included; what is not a number is silent.
pub proof fn loud_samples_are_at_full_scale(bits: u32, sample: i16)
    requires
        call_ensures(pcm16, (bits,), sample),
        0x3f80_0000 <= bits < 0x8000_0000,
    ensures
        sample == if bits <= 0x7f80_0000 {
            32767i16
        } else {
            0i16
        },
{
    one_is_encoded();
    if bits < 0x7f80_0000 {
        if bits > 0x3f80_0000 {
            units_are_ordered(0x3f80_0000, bits as nat);
        }
        pcm_is_limited(units(bits as nat) as int);
    }
}

/// A sample and its negative have 16-bit samples that are each other's negatives.
pub proof fn negative_samples_mirror(bits: u32, sample: i16, mirrored: i16)
    requires
        call_ensures(pcm16, (bits,), sample),
        bits < 0x8000_0000,
        call_ensures(pcm16, ((bits + 0x8000_0000) as u32,), mirrored),
    ensures
        mirrored == -sample,
{
    upper_patterns_negate(bits);
    if let Single::Finite(u) = single(bits) {
        pcm_is_odd(u);
    }
}

/// A speed is zero or negative by its pattern, and above four by its pattern.
pub proof fn patterns_are_compared(bits: u32, low: bool, high: bool)
    requires
        call_ensures(not_positive, (bits,), low),
        call_ensures(above_four, (bits,), high),
    ensures
        low <==> bits == 0 || 0x8000_0000 <= bits <= 0xff80_0000,
        high <==> 0x4080_0000 < bits <= 0x7f80_0000,
{
    patterns_are_ordered(bits);
}

/// The patterns of the numbers that are zero or negative, and of those above four.
pub proof fn patterns_are_ordered(bits: u32)
    ensures
        at_most_zero(single(bits)) <==> bits == 0 || 0x8000_0000 <= bits <= 0xff80_0000,
        above(single(bits), 4) <==> 0x4080_0000 < bits <= 0x7f80_0000,
{
    let magnitude = bits as nat % 0x8000_0000;
    lemma_pow2_adds(23, 128);
    lemma_pow2_adds(2, 149);
    lemma2_to64();
    assert(units(0x4080_0000) == 4 * one());
    lemma_pow2_pos(149);
    if magnitude > 0 {
        units_are_ordered(0, magnitude);
    }
    if magnitude < 0x4080_0000 {
        units_are_ordered(magnitude, 0x4080_0000);
    } else if magnitude > 0x4080_0000 {
        units_are_ordered(0x4080_0000, magnitude);
    }
}

} // verus!
