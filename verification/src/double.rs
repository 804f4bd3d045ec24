//! Double-precision arithmetic on whole numbers.
//!
//! Latency observations, keyframe intervals and frame periods are IEEE-754
//! doubles at the edges of the daemon. Here such a number is its 64-bit
//! pattern, and every operation the daemon performs on one is stated and
//! computed exactly, rounding included: a product is the nearest number of 53
//! significant binary digits, ties to even.

use vstd::arithmetic::power2::{
    lemma_pow2, lemma_pow2_adds, lemma_pow2_pos, lemma_pow2_strictly_increases, lemma_pow2_unfold,
    pow2,
};
use vstd::prelude::*;

verus! {

/// The number that a bit pattern denotes. A finite one is
/// `mantissa * 2^exponent`, negated when `negative`.
pub enum Double {
    NotANumber,
    Infinite { negative: bool },
    Finite { negative: bool, mantissa: nat, exponent: int },
}

pub open spec fn sign_bit() -> int {
    0x8000_0000_0000_0000
}

/// 2^52, the weight of the implicit leading digit.
pub open spec fn hidden_bit() -> int {
    0x10_0000_0000_0000
}

pub open spec fn exponent_field(bits: u64) -> int {
    (bits as int / hidden_bit()) % 2048
}

pub open spec fn fraction_field(bits: u64) -> int {
    bits as int % hidden_bit()
}

/// The double with the given bit pattern.
pub open spec fn double_of(bits: u64) -> Double {
    let negative = bits as int >= sign_bit();
    let exponent = exponent_field(bits);
    let fraction = fraction_field(bits);
    if exponent == 2047 {
        if fraction == 0 {
            Double::Infinite { negative }
        } else {
            Double::NotANumber
        }
    } else if exponent == 0 {
        Double::Finite { negative, mantissa: fraction as nat, exponent: -1074 }
    } else {
        Double::Finite {
            negative,
            mantissa: (fraction + hidden_bit()) as nat,
            exponent: exponent - 1075,
        }
    }
}

/// `m1 * 2^e1 <= m2 * 2^e2`.
pub open spec fn scaled_at_most(m1: nat, e1: int, m2: nat, e2: int) -> bool {
    if e1 <= e2 {
        m1 <= m2 * pow2((e2 - e1) as nat)
    } else {
        m1 * pow2((e1 - e2) as nat) <= m2
    }
}

/// Whether `x` is at most the finite number `bound >= 0`. Nothing holds of a
/// value that is not a number.
pub open spec fn at_most_bound(x: Double, bound: Double) -> bool {
    match (x, bound) {
        (Double::Infinite { negative }, _) => negative,
        (
            Double::Finite { negative, mantissa, exponent },
            Double::Finite { mantissa: m2, exponent: e2, .. },
        ) => negative || scaled_at_most(mantissa, exponent, m2, e2),
        _ => false,
    }
}

/// `n / d`, rounded to the nearest whole number, ties to even.
pub open spec fn half_even(n: nat, d: nat) -> nat {
    let q = n / d;
    let r = n % d;
    if 2 * r < d || (2 * r == d && q % 2 == 0) {
        q
    } else {
        q + 1
    }
}

/// How many binary digits `n` has.
pub open spec fn bit_length(n: nat) -> nat
    decreases n,
{
    if n == 0 {
        0
    } else {
        1 + bit_length(n / 2)
    }
}

/// `n`, rounded to 53 significant binary digits.
pub open spec fn round53(n: nat) -> nat {
    if bit_length(n) <= 53 {
        n
    } else {
        let unit = pow2((bit_length(n) - 53) as nat);
        half_even(n, unit) * unit
    }
}

/// The whole part of `p * 2^exponent`.
pub open spec fn whole_part(p: nat, exponent: int) -> nat {
    if exponent >= 0 {
        p * pow2(exponent as nat)
    } else {
        p / pow2((-exponent) as nat)
    }
}

/// `p * 2^exponent`, rounded to the nearest whole number, ties upward.
pub open spec fn nearest_whole(p: nat, exponent: int) -> nat {
    if exponent >= 0 {
        p * pow2(exponent as nat)
    } else {
        (2 * p + pow2((-exponent) as nat)) / pow2((1 - exponent) as nat)
    }
}

pub open spec fn cap(n: nat, max: nat) -> nat {
    if n <= max {
        n
    } else {
        max
    }
}

/// The double-precision product `x * factor`, cut to a whole number between 0
/// and `max`; 0 for what is not a number.
pub open spec fn product_floor(x: Double, factor: nat, max: nat) -> nat {
    match x {
        Double::Finite { negative: false, mantissa, exponent } => cap(
            whole_part(round53(mantissa * factor), exponent),
            max,
        ),
        Double::Infinite { negative: false } => max,
        _ => 0,
    }
}

/// The double-precision product `x * factor`, rounded half away from zero to a
/// whole number between 0 and `max`; 0 for what is not a number.
pub open spec fn product_nearest(x: Double, factor: nat, max: nat) -> nat {
    match x {
        Double::Finite { negative: false, mantissa, exponent } => cap(
            nearest_whole(round53(mantissa * factor), exponent),
            max,
        ),
        Double::Infinite { negative: false } => max,
        _ => 0,
    }
}

/// The least `k` for which `n * 2^k` reaches `d * 2^52`.
pub open spec fn quotient_shift(n: nat, d: nat) -> nat
    decreases
            (if n >= d * hidden_bit() {
                0
            } else {
                d * hidden_bit() - n
            }),
{
    if n == 0 || n >= d * hidden_bit() {
        0
    } else {
        1 + quotient_shift(2 * n, d)
    }
}

/// `n / d` seconds, taken in double precision, in whole nanoseconds.
pub open spec fn quotient_nanos(n: nat, d: nat) -> nat {
    let k = quotient_shift(n, d);
    half_even(half_even(n * pow2(k), d) * 1_000_000_000, pow2(k))
}

/// Whether `x` is the double that comes nearest to the ratio `n / d`, with all
/// of its 53 digits in use.
pub open spec fn nearest_to_ratio(x: Double, n: nat, d: nat) -> bool {
    x matches Double::Finite { negative: false, mantissa, exponent } && {
        &&& hidden_bit() <= mantissa < 2 * hidden_bit()
        &&& exponent <= 0
        &&& mantissa == half_even(n * pow2((-exponent) as nat), d)
    }
}

fn power_of_two(n: u32) -> (r: u128)
    requires
        n < 128,
    ensures
        r == pow2(n as nat),
        r >= 1,
{
    let mut i: u32 = 0;
    let mut r: u128 = 1;
    proof {
        lemma_pow2(0);
        vstd::arithmetic::power::lemma_pow0(2);
    }
    while i < n
        invariant
            i <= n < 128,
            r == pow2(i as nat),
        decreases n - i,
    {
        proof {
            lemma_pow2_unfold((i + 1) as nat);
            lemma_pow2_fits(i as nat);
        }
        r = r * 2;
        i += 1;
    }
    proof {
        lemma_pow2_pos(n as nat);
    }
    r
}

/// Powers of two below 2^127 leave room to double in 128 bits.
proof fn lemma_pow2_fits(n: nat)
    requires
        n <= 126,
    ensures
        pow2(n) <= 0x4000_0000_0000_0000_0000_0000_0000_0000,
{
    vstd::arithmetic::power2::lemma2_to64_rest();
    vstd::arithmetic::power2::lemma2_to64();
    lemma_pow2_adds(63, 63);
    assert(pow2(126) == 0x4000_0000_0000_0000_0000_0000_0000_0000) by {
        assert(pow2(63) == 0x8000_0000_0000_0000);
        assert(0x8000_0000_0000_0000 * 0x8000_0000_0000_0000
            == 0x4000_0000_0000_0000_0000_0000_0000_0000);
    }
    if n < 126 {
        lemma_pow2_strictly_increases(n, 126);
    }
}

/// Bit patterns of numbers that are not negative order like the numbers.
pub proof fn lemma_same_order(a: u64, b: u64)
    requires
        a < sign_bit(),
        b < sign_bit(),
        exponent_field(a) != 2047,
        exponent_field(b) != 2047,
    ensures
        at_most_bound(double_of(a), double_of(b)) == (a <= b),
{
    let (ea, fa) = (exponent_field(a), fraction_field(a));
    let (eb, fb) = (exponent_field(b), fraction_field(b));
    assert(a == ea * hidden_bit() + fa && 0 <= ea < 2048 && 0 <= fa < hidden_bit());
    assert(b == eb * hidden_bit() + fb && 0 <= eb < 2048 && 0 <= fb < hidden_bit());
    assert(pow2(0) == 1) by {
        vstd::arithmetic::power2::lemma2_to64();
    }
    let ma = if ea == 0 { fa } else { fa + hidden_bit() };
    let mb = if eb == 0 { fb } else { fb + hidden_bit() };
    let xa = if ea == 0 { -1074 } else { ea - 1075 };
    let xb = if eb == 0 { -1074 } else { eb - 1075 };
    if xa < xb {
        let k = (xb - xa) as nat;
        lemma_pow2_at_least_two(k);
        assert(ma <= mb * pow2(k)) by (nonlinear_arith)
            requires
                0 <= ma < 2 * 0x10_0000_0000_0000,
                mb >= 0x10_0000_0000_0000,
                pow2(k) >= 2,
        ;
    } else if xa > xb {
        let k = (xa - xb) as nat;
        lemma_pow2_at_least_two(k);
        assert(ma * pow2(k) > mb) by (nonlinear_arith)
            requires
                0 <= mb < 2 * 0x10_0000_0000_0000,
                ma >= 0x10_0000_0000_0000,
                pow2(k) >= 2,
        ;
    } else {
        assert(mb * pow2(0) == mb) by (nonlinear_arith)
            requires
                pow2(0) == 1,
        ;
    }
}

proof fn lemma_pow2_at_least_two(k: nat)
    requires
        k >= 1,
    ensures
        pow2(k) >= 2,
{
    lemma_pow2_unfold(k);
    lemma_pow2_pos((k - 1) as nat);
}

/// Whether the double with pattern `bits` is at most the one with pattern
/// `bound`, a finite number that is not negative.
pub fn at_most(bits: u64, bound: u64) -> (r: bool)
    requires
        bound < sign_bit(),
        exponent_field(bound) != 2047,
    ensures
        r == at_most_bound(double_of(bits), double_of(bound)),
{
    let negative: bool = bits >= 0x8000_0000_0000_0000;
    let exponent: u64 = (bits / 0x10_0000_0000_0000) % 2048;
    let fraction: u64 = bits % 0x10_0000_0000_0000;
    if exponent == 2047 {
        fraction == 0 && negative
    } else if negative {
        true
    } else {
        proof {
            lemma_same_order(bits, bound);
        }
        bits <= bound
    }
}

fn binary_digits(n: u128) -> (r: u32)
    ensures
        r == bit_length(n as nat),
        r <= 128,
        n < pow2(r as nat),
        r > 0 ==> pow2((r - 1) as nat) <= n,
{
    let mut left: u128 = n;
    let mut r: u32 = 0;
    proof {
        lemma_bit_length_bounds(n as nat);
        lemma_bit_length_128(n);
    }
    while left > 0
        invariant
            bit_length(n as nat) == r + bit_length(left as nat),
            bit_length(n as nat) <= 128,
        decreases left,
    {
        left = left / 2;
        r += 1;
    }
    r
}

proof fn lemma_bit_length_bounds(n: nat)
    ensures
        n < pow2(bit_length(n)),
        n > 0 ==> pow2((bit_length(n) - 1) as nat) <= n,
    decreases n,
{
    assert(pow2(0) == 1) by {
        vstd::arithmetic::power2::lemma2_to64();
    }
    if n > 0 {
        lemma_bit_length_bounds(n / 2);
        lemma_pow2_unfold(bit_length(n));
        if n / 2 > 0 {
            lemma_pow2_unfold((bit_length(n) - 1) as nat);
        }
    }
}

/// A number between two neighbouring powers of two has as many digits as the
/// greater one says.
pub proof fn lemma_bit_length_between(n: nat, len: nat)
    requires
        0 < len,
        pow2((len - 1) as nat) <= n < pow2(len),
    ensures
        bit_length(n) == len,
{
    lemma_pow2_pos((len - 1) as nat);
    lemma_bit_length_bounds(n);
    let found = bit_length(n);
    if found < len {
        if found < len - 1 {
            lemma_pow2_strictly_increases(found, (len - 1) as nat);
        }
    } else if found > len {
        if len < found - 1 {
            lemma_pow2_strictly_increases(len, (found - 1) as nat);
        }
    }
}

proof fn lemma_bit_length_128(n: u128)
    ensures
        bit_length(n as nat) <= 128,
{
    lemma_bit_length_bounds(n as nat);
    if bit_length(n as nat) > 128 {
        lemma_pow2_fits(126);
        vstd::arithmetic::power2::lemma2_to64();
        vstd::arithmetic::power2::lemma2_to64_rest();
        lemma_pow2_adds(63, 63);
        lemma_pow2_adds(126, 2);
        assert(pow2(128) == 0x1_0000_0000_0000_0000_0000_0000_0000_0000);
        if bit_length(n as nat) - 1 > 128 {
            lemma_pow2_strictly_increases(128, (bit_length(n as nat) - 1) as nat);
        }
    }
}

/// Rounds `n / d` half to even.
fn divide_half_even(n: u128, d: u128) -> (r: u128)
    requires
        0 < d <= 0x4000_0000_0000_0000_0000_0000_0000_0000,
        n < 0x4000_0000_0000_0000_0000_0000_0000_0000,
    ensures
        r == half_even(n as nat, d as nat),
        r <= n / d + 1,
{
    let q: u128 = n / d;
    let rest: u128 = n % d;
    assert(q <= n) by (nonlinear_arith)
        requires
            q == n / d,
            d > 0,
    ;
    if 2 * rest < d || (2 * rest == d && q % 2 == 0) {
        q
    } else {
        q + 1
    }
}

/// Bound on what rounding to 53 digits makes of a number.
proof fn lemma_round53_bound(n: nat)
    requires
        n < pow2(90),
    ensures
        round53(n) <= 2 * n,
{
    let len = bit_length(n);
    lemma_bit_length_bounds(n);
    if len > 53 {
        let unit = pow2((len - 53) as nat);
        lemma_pow2_pos((len - 53) as nat);
        lemma_pow2_adds((len - 53) as nat, 52);
        lemma_pow2_pos(52);
        let q = n / unit;
        assert(unit <= n) by (nonlinear_arith)
            requires
                unit * pow2(52) <= n,
                pow2(52) >= 1,
                unit >= 1,
        ;
        assert(q * unit <= n) by (nonlinear_arith)
            requires
                q == n / unit,
                unit >= 1,
        ;
        assert((q + 1) * unit <= 2 * n) by (nonlinear_arith)
            requires
                q * unit <= n,
                unit <= n,
        ;
        assert(q * unit <= 2 * n);
    }
}

fn to_53_digits(n: u128) -> (r: u128)
    requires
        n < pow2(90),
    ensures
        r == round53(n as nat),
        r <= 2 * n,
{
    let len: u32 = binary_digits(n);
    proof {
        lemma_round53_bound(n as nat);
        lemma_pow2_fits(90);
        lemma_pow2_strictly_increases(90, 126);
        lemma_pow2_fits(126);
    }
    if len <= 53 {
        n
    } else {
        let unit: u128 = power_of_two(len - 53);
        proof {
            lemma_pow2_fits((len - 53) as nat);
        }
        let q: u128 = divide_half_even(n, unit);
        q * unit
    }
}

proof fn lemma_pow2_90()
    ensures
        pow2(90) == 0x400_0000_0000_0000_0000_0000,
{
    vstd::arithmetic::power2::lemma2_to64();
    vstd::arithmetic::power2::lemma2_to64_rest();
    lemma_pow2_adds(45, 45);
}

/// `p * 2^e`, at most `max`.
fn shift_up(p: u128, e: u64, max: u64) -> (r: u64)
    ensures
        r == cap(p as nat * pow2(e as nat), max as nat),
{
    let mut acc: u128 = p;
    let mut i: u64 = 0;
    assert(p * pow2(0) == p) by {
        vstd::arithmetic::power2::lemma2_to64();
    }
    while i < e
        invariant
            i <= e,
            acc == p * pow2(i as nat),
        decreases e - i,
    {
        proof {
            lemma_pow2_adds(i as nat, (e - i) as nat);
            lemma_pow2_pos((e - i) as nat);
            lemma_pow2_unfold((i + 1) as nat);
            assert(p * pow2(e as nat) >= acc) by (nonlinear_arith)
                requires
                    acc == p * pow2(i as nat),
                    pow2(e as nat) == pow2(i as nat) * pow2((e - i) as nat),
                    pow2((e - i) as nat) >= 1,
            ;
            assert(p * pow2((i + 1) as nat) == 2 * acc) by (nonlinear_arith)
                requires
                    acc == p * pow2(i as nat),
                    pow2((i + 1) as nat) == 2 * pow2(i as nat),
            ;
        }
        if acc > max as u128 {
            return max;
        }
        if acc == 0 {
            assert(p * pow2(e as nat) == 0) by (nonlinear_arith)
                requires
                    p * pow2(i as nat) == 0,
                    pow2(e as nat) == pow2(i as nat) * pow2((e - i) as nat),
            ;
            return 0;
        }
        acc = acc * 2;
        i += 1;
    }
    if acc > max as u128 {
        max
    } else {
        acc as u64
    }
}

/// The parts of a bit pattern: sign, exponent field and fraction.
fn parts(bits: u64) -> (r: (bool, u64, u64))
    ensures
        r.0 == (bits >= sign_bit()),
        r.1 == exponent_field(bits),
        r.2 == fraction_field(bits),
        r.1 < 2048,
        r.2 < hidden_bit(),
{
    (
        bits >= 0x8000_0000_0000_0000,
        (bits / 0x10_0000_0000_0000) % 2048,
        bits % 0x10_0000_0000_0000,
    )
}

/// The rounded product of a mantissa and a factor.
fn rounded_product(mantissa: u64, factor: u32) -> (r: u128)
    requires
        mantissa < 2 * hidden_bit(),
    ensures
        r == round53(mantissa as nat * factor as nat),
        r < pow2(90),
{
    proof {
        lemma_pow2_90();
    }
    assert(mantissa * factor < 0x20_0000_0000_0000 * 0x1_0000_0000) by (nonlinear_arith)
        requires
            mantissa < 0x20_0000_0000_0000,
            factor < 0x1_0000_0000,
    ;
    let product: u128 = mantissa as u128 * factor as u128;
    assert(product == mantissa as nat * factor as nat);
    to_53_digits(product)
}

/// Multiplies in double precision and cuts to a whole number up to `max`.
pub fn times_floor(bits: u64, factor: u32, max: u64) -> (r: u64)
    ensures
        r == product_floor(double_of(bits), factor as nat, max as nat),
{
    let (negative, exponent, fraction) = parts(bits);
    if exponent == 2047 {
        return if fraction == 0 && !negative {
            max
        } else {
            0
        };
    }
    if negative {
        return 0;
    }
    let mantissa: u64 = if exponent == 0 {
        fraction
    } else {
        fraction + 0x10_0000_0000_0000
    };
    let biased: u64 = if exponent == 0 {
        1
    } else {
        exponent
    };
    let p: u128 = rounded_product(mantissa, factor);
    if biased >= 1075 {
        shift_up(p, biased - 1075, max)
    } else {
        let d: u64 = 1075 - biased;
        if d >= 120 {
            proof {
                lemma_pow2_strictly_increases(90, d as nat);
                assert(p as nat / pow2(d as nat) == 0) by (nonlinear_arith)
                    requires
                        0 <= p < pow2(d as nat),
                ;
            }
            0
        } else {
            let unit: u128 = power_of_two(d as u32);
            let whole: u128 = p / unit;
            if whole > max as u128 {
                max
            } else {
                whole as u64
            }
        }
    }
}

/// Multiplies in double precision and rounds half away from zero to a whole
/// number up to `max`.
pub fn times_nearest(bits: u64, factor: u32, max: u64) -> (r: u64)
    ensures
        r == product_nearest(double_of(bits), factor as nat, max as nat),
{
    let (negative, exponent, fraction) = parts(bits);
    if exponent == 2047 {
        return if fraction == 0 && !negative {
            max
        } else {
            0
        };
    }
    if negative {
        return 0;
    }
    let mantissa: u64 = if exponent == 0 {
        fraction
    } else {
        fraction + 0x10_0000_0000_0000
    };
    let biased: u64 = if exponent == 0 {
        1
    } else {
        exponent
    };
    let p: u128 = rounded_product(mantissa, factor);
    if biased >= 1075 {
        shift_up(p, biased - 1075, max)
    } else {
        let d: u64 = 1075 - biased;
        proof {
            lemma_pow2_unfold((d + 1) as nat);
            lemma_pow2_90();
        }
        if d >= 120 {
            proof {
                lemma_pow2_unfold(91);
                lemma_pow2_strictly_increases(91, d as nat);
                assert((2 * p as nat + pow2(d as nat)) / pow2((d + 1) as nat) == 0) by (nonlinear_arith)
                    requires
                        0 <= 2 * p < pow2(d as nat),
                        pow2((d + 1) as nat) == 2 * pow2(d as nat),
                ;
            }
            0
        } else {
            let half: u128 = power_of_two(d as u32);
            let unit: u128 = power_of_two(d as u32 + 1);
            proof {
                lemma_pow2_fits(d as nat);
            }
            let whole: u128 = (2 * p + half) / unit;
            if whole > max as u128 {
                max
            } else {
                whole as u64
            }
        }
    }
}

/// `n / d` seconds, divided in double precision, in whole nanoseconds.
pub fn ratio_nanos(n: u64, d: u64) -> (r: u64)
    requires
        1 <= n <= 4,
        1 <= d <= 0x2_0000_0000,
    ensures
        r == quotient_nanos(n as nat, d as nat),
{
    let target: u128 = d as u128 * 0x10_0000_0000_0000;
    let mut acc: u128 = n as u128;
    let mut k: u32 = 0;
    proof {
        lemma_pow2_90();
        vstd::arithmetic::power2::lemma2_to64();
    }
    while acc < target
        invariant
            target == d * hidden_bit(),
            1 <= n <= 4,
            1 <= d <= 0x2_0000_0000,
            acc == n * pow2(k as nat),
            acc < 2 * target,
            pow2(k as nat) <= acc,
            pow2(90) == 0x400_0000_0000_0000_0000_0000,
            k < 90,
            quotient_shift(n as nat, d as nat) == k + quotient_shift(acc as nat, d as nat),
        decreases 90 - k,
    {
        proof {
            lemma_pow2_unfold((k + 1) as nat);
            lemma_pow2_pos(k as nat);
            assert(quotient_shift(acc as nat, d as nat) == 1 + quotient_shift(
                2 * (acc as nat),
                d as nat,
            ));
            assert(n * pow2((k + 1) as nat) == 2 * (n * pow2(k as nat))) by (nonlinear_arith)
                requires
                    pow2((k + 1) as nat) == 2 * pow2(k as nat),
            ;
        }
        acc = acc * 2;
        k += 1;
    }
    let m: u128 = divide_half_even(acc, d as u128);
    proof {
        lemma_pow2_fits(k as nat);
        lemma_pow2_pos(k as nat);
        assert(acc / (d as u128) < 0x20_0000_0000_0000) by (nonlinear_arith)
            requires
                acc < 2 * (d * 0x10_0000_0000_0000),
                d >= 1,
        ;
    }
    let unit: u128 = power_of_two(k);
    let r: u128 = divide_half_even(m * 1_000_000_000, unit);
    proof {
        // m * 10^9 / 2^k stays within 4 * 10^9 + 1 nanoseconds.
        lemma_quotient_small(n as nat, d as nat, acc as nat, m as nat, unit as nat);
    }
    r as u64
}

/// A quotient of at most four seconds is at most four thousand million
/// nanoseconds and a few more for rounding.
proof fn lemma_quotient_small(n: nat, d: nat, acc: nat, m: nat, unit: nat)
    requires
        1 <= n <= 4,
        d >= 1,
        unit >= 1,
        acc == n * unit,
        m == half_even(acc, d),
    ensures
        half_even(m * 1_000_000_000, unit) <= 5_000_000_002,
{
    assert(acc / d <= acc) by (nonlinear_arith)
        requires
            d >= 1,
    ;
    assert(m <= 4 * unit + 1) by (nonlinear_arith)
        requires
            m <= acc + 1,
            acc == n * unit,
            n <= 4,
    ;
    assert(m * 1_000_000_000 <= 5_000_000_000 * unit);
    assert((m * 1_000_000_000) / unit <= 5_000_000_000) by (nonlinear_arith)
        requires
            m * 1_000_000_000 <= 5_000_000_000 * unit,
            unit >= 1,
    ;
}

/// Rounding a quotient is off by at most one half, and where it is off by just
/// that, the result is even.
pub proof fn law_rounding_is_nearest(n: nat, d: nat)
    requires
        d > 0,
    ensures
        -(d as int) <= 2 * (half_even(n, d) * d - n) <= d,
        2 * (half_even(n, d) * d - n) == d || 2 * (n - half_even(n, d) * d) == d ==> half_even(n, d)
            % 2 == 0,
{
    let q = n / d;
    let r = n % d;
    assert(n == q * d + r && r < d) by (nonlinear_arith)
        requires
            q == n / d,
            r == n % d,
            d > 0,
    ;
    assert((q + 1) * d == q * d + d) by (nonlinear_arith);
}

proof fn lemma_shift_reaches(n: nat, d: nat)
    requires
        n > 0,
    ensures
        n * pow2(quotient_shift(n, d)) >= d * hidden_bit(),
    decreases
            (if n >= d * hidden_bit() {
                0
            } else {
                d * hidden_bit() - n
            }),
{
    vstd::arithmetic::power2::lemma2_to64();
    if n >= d * hidden_bit() {
        assert(n * pow2(0) == n);
    } else {
        lemma_shift_reaches(2 * n, d);
        let k = quotient_shift(2 * n, d);
        lemma_pow2_unfold(k + 1);
        assert(n * (2 * pow2(k)) == (2 * n) * pow2(k)) by (nonlinear_arith);
    }
}

/// A quotient of seconds comes out right to the nanosecond, although it is
/// taken in double precision.
pub proof fn law_quotients_are_right_to_the_nanosecond(n: nat, d: nat)
    requires
        1 <= n <= 4,
        d >= 1,
    ensures
        -(d as int) < quotient_nanos(n, d) * d - n * 1_000_000_000 < d,
{
    let k = quotient_shift(n, d);
    let p = pow2(k);
    let q = half_even(n * p, d);
    let r = half_even(q * 1_000_000_000, p);
    lemma_pow2_pos(k);
    lemma_shift_reaches(n, d);
    assert(p > 1_000_000_000) by (nonlinear_arith)
        requires
            n * p >= d * 0x10_0000_0000_0000,
            n <= 4,
            d >= 1,
    ;
    law_rounding_is_nearest(n * p, d);
    law_rounding_is_nearest(q * 1_000_000_000, p);
    assert(-(d as int) < r * d - n * 1_000_000_000 < d) by (nonlinear_arith)
        requires
            -(d as int) <= 2 * (q * d - n * p) <= d,
            -(p as int) <= 2 * (r * p - q * 1_000_000_000) <= p,
            p > 1_000_000_000,
            d >= 1,
    {
        let e = r * d - n * 1_000_000_000;
        assert(e * p == d * (r * p - q * 1_000_000_000) + 1_000_000_000 * (q * d - n * p));
        assert(2 * (d * (r * p - q * 1_000_000_000)) <= d * p);
        assert(2 * (d * (r * p - q * 1_000_000_000)) >= -(d * p));
        assert(2 * (e * p) <= d * p + 1_000_000_000 * d);
        assert(2 * (e * p) >= -(d * p + 1_000_000_000 * d));
        assert(1_000_000_000 * d < p * d);
        assert(e * p < d * p);
        assert(e * p > -(d * p));
    }
}

/// A power of two, times a count, is exact in double precision: from the
/// power's bit pattern the product is the count that many times over.
pub proof fn law_powers_of_two_multiply_exactly(bits: u64, e: nat, factor: nat, max: nat)
    requires
        e <= 20,
        bits == (1023 + e) * hidden_bit(),
        factor <= u32::MAX,
    ensures
        product_nearest(double_of(bits), factor, max) == cap(factor * pow2(e), max),
        product_floor(double_of(bits), factor, max) == cap(factor * pow2(e), max),
{
    let h = hidden_bit() as nat;
    vstd::arithmetic::power2::lemma2_to64();
    vstd::arithmetic::power2::lemma2_to64_rest();
    assert(pow2(52) == h);
    assert(exponent_field(bits) == 1023 + e && fraction_field(bits) == 0) by {
        assert(bits as int / 0x10_0000_0000_0000 == 1023 + e);
        assert(bits as int % 0x10_0000_0000_0000 == 0);
    }
    let x = double_of(bits);
    assert(x == Double::Finite { negative: false, mantissa: h, exponent: e - 52 });
    let n = h * factor;
    lemma_round53_exact(factor);
    let up = (52 - e) as nat;
    lemma_pow2_adds(up, e);
    lemma_pow2_pos(up);
    lemma_pow2_pos(e);
    let whole = factor * pow2(e);
    assert(n == whole * pow2(up)) by (nonlinear_arith)
        requires
            n == h * factor,
            h == pow2(up) * pow2(e),
            whole == factor * pow2(e),
    ;
    vstd::arithmetic::div_mod::lemma_div_by_multiple(whole as int, pow2(up) as int);
    lemma_pow2_unfold(up + 1);
    assert((2 * n + pow2(up)) / pow2(up + 1) == whole) by (nonlinear_arith)
        requires
            n == whole * pow2(up),
            pow2(up + 1) == 2 * pow2(up),
            pow2(up) > 0,
    ;
}

/// A count shifted up by 52 binary digits has no more than 53 digits that
/// matter.
proof fn lemma_round53_exact(factor: nat)
    requires
        factor <= u32::MAX,
    ensures
        round53((hidden_bit() * factor) as nat) == hidden_bit() * factor,
{
    let n = (hidden_bit() * factor) as nat;
    vstd::arithmetic::power2::lemma2_to64();
    vstd::arithmetic::power2::lemma2_to64_rest();
    let len = bit_length(n);
    if len > 53 {
        lemma_bit_length_bounds(n);
        lemma_pow2_adds(52, 32);
        if len - 1 > 84 {
            lemma_pow2_strictly_increases(84, (len - 1) as nat);
        }
        assert(n < pow2(84)) by (nonlinear_arith)
            requires
                n == 0x10_0000_0000_0000 * factor,
                factor < 0x1_0000_0000,
                pow2(84) == 0x10_0000_0000_0000 * 0x1_0000_0000,
        ;
        let u = (len - 53) as nat;
        let unit = pow2(u);
        let rest = pow2((52 - u) as nat);
        lemma_pow2_pos(u);
        lemma_pow2_adds((52 - u) as nat, u);
        let m = factor * rest;
        assert(n == m * unit) by (nonlinear_arith)
            requires
                n == 0x10_0000_0000_0000 * factor,
                0x10_0000_0000_0000 == rest * unit,
                m == factor * rest,
        ;
        vstd::arithmetic::div_mod::lemma_div_by_multiple(m as int, unit as int);
        vstd::arithmetic::div_mod::lemma_mod_multiples_basic(m as int, unit as int);
    }
}

/// Nothing, times anything, is nothing.
pub proof fn law_zero_times_anything(factor: nat, max: nat)
    ensures
        product_nearest(double_of(0), factor, max) == 0,
        product_floor(double_of(0), factor, max) == 0,
{
    assert(double_of(0) == Double::Finite { negative: false, mantissa: 0, exponent: -1074 });
    assert(0nat * factor == 0);
    lemma_pow2_pos(1074);
    lemma_pow2_pos(1075);
    lemma_pow2_unfold(1075);
    assert(bit_length(0) == 0);
    assert(0nat / pow2(1074) == 0) by (nonlinear_arith)
        requires
            pow2(1074) > 0,
    ;
    assert(pow2(1074) / pow2(1075) == 0) by (nonlinear_arith)
        requires
            pow2(1075) == 2 * pow2(1074),
            pow2(1074) > 0,
    ;
}

/// Rounding to 53 digits is off by at most one part in 2^53.
pub proof fn law_53_digits_are_close(n: nat)
    ensures
        0x1f_ffff_ffff_ffff * n <= 0x20_0000_0000_0000 * round53(n) <= 0x20_0000_0000_0001 * n,
{
    let len = bit_length(n);
    if len > 53 {
        let u = (len - 53) as nat;
        let unit = pow2(u);
        lemma_pow2_pos(u);
        lemma_bit_length_bounds(n);
        vstd::arithmetic::power2::lemma2_to64_rest();
        lemma_pow2_adds(u, 52);
        assert(pow2((len - 1) as nat) == unit * 0x10_0000_0000_0000);
        law_rounding_is_nearest(n, unit);
        let r = half_even(n, unit) * unit;
        assert(0x1f_ffff_ffff_ffff * n <= 0x20_0000_0000_0000 * r <= 0x20_0000_0000_0001 * n)
            by (nonlinear_arith)
            requires
                -(unit as int) <= 2 * (r - n) <= unit,
                unit * 0x10_0000_0000_0000 <= n,
        ;
    }
}

/// A product, rounded and cut to a whole number, is the whole part of the exact
/// product, but for that rounding.
pub proof fn law_cut_products_are_close(mantissa: nat, shift: nat, factor: nat)
    ensures
        ({
            let whole = whole_part(round53(mantissa * factor), -(shift as int));
            let unit = pow2(shift);
            shift > 0 ==> {
                &&& 0x20_0000_0000_0000 * (whole * unit) <= 0x20_0000_0000_0001 * (mantissa
                    * factor)
                &&& 0x20_0000_0000_0000 * ((whole + 1) * unit) > 0x1f_ffff_ffff_ffff * (mantissa
                    * factor)
            }
        }),
{
    let n = mantissa * factor;
    let p = round53(n);
    let unit = pow2(shift);
    lemma_pow2_pos(shift);
    law_53_digits_are_close(n);
    if shift > 0 {
        let whole = p / unit;
        assert(whole * unit <= p < (whole + 1) * unit) by (nonlinear_arith)
            requires
                whole == p / unit,
                unit > 0,
        ;
    }
}

} // verus!
