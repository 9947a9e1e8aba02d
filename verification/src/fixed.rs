//! Fixed-point arithmetic.
//!
//! A quantity `q` is stored as the integer `q * SCALE`, so 1.0 is `SCALE`,
//! a length of 15 is `15 * SCALE` and a drag of 0.95 is `2850`. Seconds are
//! stored the same way, which makes one simulation step exactly `TICK` units.
//! Angles are radians in the same units, with a full turn rounded to `TAU`.
//!
//! Products and quotients round toward zero, so that mirrored inputs give
//! mirrored results.

use vstd::prelude::*;

verus! {

/// Number of stored units that make up 1.0.
pub const SCALE: i64 = 3000;

/// Simulation steps per second.
pub const TICKS_PER_SECOND: i64 = 30;

/// Duration of one simulation step, in stored units of a second.
pub const TICK: i64 = 100;

/// Largest magnitude of a coordinate, a speed, a radius or a duration.
pub const LIMIT: i64 = 0x100_0000_0000;

/// A full turn.
pub const TAU: i64 = 18848;

/// Half a turn.
pub const PI: i64 = 9424;

/// A quarter of a turn.
pub const QUARTER_TURN: i64 = 4712;

/// Quotient of `a` by a positive `b`, rounded toward zero.
pub open spec fn div_toward_zero(a: int, b: int) -> int {
    if a >= 0 {
        a / b
    } else {
        -((-a) / b)
    }
}

/// Fixed-point product of two stored quantities.
pub open spec fn scaled(a: int, b: int) -> int {
    div_toward_zero(a * b, SCALE as int)
}

/// What a rate of `a` per second amounts to over one simulation step.
pub open spec fn per_tick(a: int) -> int {
    div_toward_zero(a, TICKS_PER_SECOND as int)
}

/// `v` brought into the interval from `lo` to `hi`.
pub open spec fn clamp(v: int, lo: int, hi: int) -> int {
    if v < lo {
        lo
    } else if v > hi {
        hi
    } else {
        v
    }
}

/// The angle in `[0, TAU)` that differs from `a` by whole turns.
pub open spec fn wrap_angle(a: int) -> int {
    a % (TAU as int)
}

/// Sine of an angle `x` between 0 and `PI`, by Bhaskara's rational
/// approximation `16 x (pi - x) / (5 pi^2 - 4 x (pi - x))`.
pub open spec fn sin_half_turn(x: int) -> int {
    let y = x * (PI - x);
    (16 * y * SCALE) / (5 * PI * PI - 4 * y)
}

/// Sine of any angle, between `-SCALE` and `SCALE`.
pub open spec fn sin_of(a: int) -> int {
    let t = wrap_angle(a);
    if t <= PI {
        sin_half_turn(t)
    } else {
        -sin_half_turn(t - PI)
    }
}

/// Cosine of any angle: the sine a quarter turn further on.
pub open spec fn cos_of(a: int) -> int {
    sin_of(wrap_angle(a) + QUARTER_TURN)
}

/// `r` is the integer part of the square root of `n`.
pub open spec fn is_sqrt_floor(n: int, r: int) -> bool {
    r >= 0 && r * r <= n && n < (r + 1) * (r + 1)
}

/// Integer part of the square root of `n`.
pub open spec fn sqrt_floor(n: int) -> int {
    choose|r: int| is_sqrt_floor(n, r)
}

/// Square root of `n`, rounded up.
pub open spec fn sqrt_ceil(n: int) -> int {
    let r = sqrt_floor(n);
    if r * r == n {
        r
    } else {
        r + 1
    }
}

/// At most one number is the integer square root of `n`.
pub proof fn lemma_sqrt_floor_unique(n: int, r: int)
    requires
        is_sqrt_floor(n, r),
    ensures
        sqrt_floor(n) == r,
{
    let s = sqrt_floor(n);
    assert(is_sqrt_floor(n, s));
    if s < r {
        assert((s + 1) * (s + 1) <= r * r) by (nonlinear_arith)
            requires
                0 <= s + 1 <= r,
        ;
    }
    if r < s {
        assert((r + 1) * (r + 1) <= s * s) by (nonlinear_arith)
            requires
                0 <= r + 1 <= s,
        ;
    }
}

/// The rounded-up square root of a non-negative `n` is the least number
/// whose square reaches `n`.
pub proof fn lemma_sqrt_ceil(n: int)
    requires
        n >= 0,
    ensures
        sqrt_ceil(n) >= 0,
        sqrt_ceil(n) * sqrt_ceil(n) >= n,
        n > 0 ==> sqrt_ceil(n) > 0,
{
    lemma_sqrt_floor_exists(n);
    let r = sqrt_floor(n);
    assert(is_sqrt_floor(n, r));
}

/// Every non-negative number has an integer square root.
pub proof fn lemma_sqrt_floor_exists(n: int)
    requires
        n >= 0,
    ensures
        is_sqrt_floor(n, sqrt_floor(n)),
    decreases n,
{
    if n == 0 {
        assert(is_sqrt_floor(0, 0));
    } else {
        lemma_sqrt_floor_exists(n - 1);
        let r = sqrt_floor(n - 1);
        if (r + 1) * (r + 1) <= n {
            assert((r + 2) * (r + 2) > (r + 1) * (r + 1)) by (nonlinear_arith)
                requires
                    r >= 0,
            ;
            assert(is_sqrt_floor(n, r + 1));
        } else {
            assert(is_sqrt_floor(n, r));
        }
    }
}

/// Bhaskara's approximation stays between 0 and 1.
pub proof fn lemma_sin_half_turn_bounds(x: int)
    requires
        0 <= x <= PI,
    ensures
        0 <= sin_half_turn(x) <= SCALE,
{
    let y = x * (PI - x);
    let den = 5 * PI * PI - 4 * y;
    let num = 16 * y * SCALE;
    assert(0 <= y) by (nonlinear_arith)
        requires
            y == x * (PI - x),
            0 <= x <= PI,
    ;
    assert(4 * y <= PI * PI) by (nonlinear_arith)
        requires
            y == x * (PI - x),
    {
        assert((2 * x - PI) * (2 * x - PI) >= 0);
        assert((2 * x - PI) * (2 * x - PI) == PI * PI - 4 * (x * (PI - x)));
    }
    assert(PI * PI == 88811776) by (nonlinear_arith);
    assert(den >= 4 * PI * PI);
    assert(0 <= num <= SCALE * den);
    assert(0 <= num / den <= SCALE) by (nonlinear_arith)
        requires
            0 <= num <= SCALE * den,
            den > 0,
    ;
}

/// The sine of every angle lies between -1 and 1.
pub proof fn lemma_sin_bounds(a: int)
    ensures
        -SCALE <= sin_of(a) <= SCALE,
{
    let t = wrap_angle(a);
    if t <= PI {
        lemma_sin_half_turn_bounds(t);
    } else {
        lemma_sin_half_turn_bounds(t - PI);
    }
}

/// The cosine of every angle lies between -1 and 1.
pub proof fn lemma_cos_bounds(a: int)
    ensures
        -SCALE <= cos_of(a) <= SCALE,
{
    lemma_sin_bounds(wrap_angle(a) + QUARTER_TURN);
}

/// Rounding a quotient toward zero never enlarges it.
pub proof fn lemma_div_toward_zero_bounds(a: int, b: int)
    requires
        b > 0,
    ensures
        a >= 0 ==> 0 <= div_toward_zero(a, b) <= a,
        a <= 0 ==> a <= div_toward_zero(a, b) <= 0,
        a >= 0 ==> div_toward_zero(a, b) * b <= a,
        a <= 0 ==> div_toward_zero(a, b) * b >= a,
{
    if a >= 0 {
        assert(0 <= a / b <= a && (a / b) * b <= a) by (nonlinear_arith)
            requires
                a >= 0,
                b > 0,
        ;
    } else {
        let m = -a;
        assert(0 <= m / b <= m && (m / b) * b <= m) by (nonlinear_arith)
            requires
                m >= 0,
                b > 0,
        ;
        assert((-(m / b)) * b == -((m / b) * b)) by (nonlinear_arith);
    }
}

/// Sum of two non-negative quantities, held at the largest value that can
/// be stored.
pub open spec fn capped_sum(a: int, b: int) -> int {
    if a + b > i64::MAX {
        i64::MAX as int
    } else {
        a + b
    }
}

/// A counter after one more event, held at the largest value that can be
/// stored.
pub open spec fn counted(n: u32) -> u32 {
    if n == u32::MAX {
        n
    } else {
        (n + 1) as u32
    }
}

/// Adds two non-negative quantities, stopping at the largest value that can
/// be stored.
pub fn add_capped(a: i64, b: i64) -> (r: i64)
    requires
        a >= 0,
        b >= 0,
    ensures
        r == capped_sum(a as int, b as int),
        r >= a,
{
    if a > i64::MAX - b {
        i64::MAX
    } else {
        a + b
    }
}

/// Counts one more event, stopping at the largest value that can be stored.
pub fn count_up(n: u32) -> (r: u32)
    ensures
        r == counted(n),
{
    if n == u32::MAX {
        n
    } else {
        n + 1
    }
}

/// A timer one tick later; it stops at `-LIMIT`.
pub open spec fn run_down(timer: int) -> int {
    if timer - TICK < -LIMIT {
        -LIMIT as int
    } else {
        timer - TICK
    }
}

/// Takes one tick off a timer, stopping at `-LIMIT`.
pub fn tick_down(timer: i64) -> (r: i64)
    ensures
        r == run_down(timer as int),
        -LIMIT <= timer <= LIMIT ==> -LIMIT <= r <= LIMIT,
{
    if timer < -LIMIT + TICK {
        -LIMIT
    } else {
        timer - TICK
    }
}

/// Divides `a` by a positive `b`, rounding toward zero.
pub fn div_round(a: i128, b: i128) -> (q: i128)
    requires
        b > 0,
    ensures
        q == div_toward_zero(a as int, b as int),
{
    a / b
}

/// Brings `v` into the interval from `lo` to `hi`.
pub fn clamp_to(v: i64, lo: i64, hi: i64) -> (r: i64)
    requires
        lo <= hi,
    ensures
        r == clamp(v as int, lo as int, hi as int),
        lo <= r <= hi,
{
    clamp_wide(v as i128, lo, hi)
}

/// Brings `v` into the interval from `lo` to `hi`.
pub fn clamp_wide(v: i128, lo: i64, hi: i64) -> (r: i64)
    requires
        lo <= hi,
    ensures
        r == clamp(v as int, lo as int, hi as int),
        lo <= r <= hi,
{
    if v < lo as i128 {
        lo
    } else if v > hi as i128 {
        hi
    } else {
        v as i64
    }
}

/// Fixed-point product of two stored quantities of magnitude at most
/// `2 * LIMIT`.
pub fn mul_scaled(a: i64, b: i64) -> (r: i64)
    requires
        -2 * LIMIT <= a <= 2 * LIMIT,
        -SCALE <= b <= SCALE,
    ensures
        r == scaled(a as int, b as int),
        a >= 0 && b >= 0 ==> 0 <= r <= a,
        -2 * LIMIT <= r <= 2 * LIMIT,
{
    proof {
        assert(-2 * LIMIT * SCALE <= a * b <= 2 * LIMIT * SCALE) by (nonlinear_arith)
            requires
                -2 * LIMIT <= a <= 2 * LIMIT,
                -SCALE <= b <= SCALE,
        ;
        lemma_scaled_bounds(a as int, b as int);
    }
    let wide: i128 = (a as i128) * (b as i128);
    let q: i128 = div_round(wide, SCALE as i128);
    q as i64
}

/// A product with a factor of magnitude at most 1 is no larger than the
/// other factor.
pub proof fn lemma_scaled_bounds(a: int, b: int)
    requires
        -SCALE <= b <= SCALE,
    ensures
        a >= 0 ==> -a <= scaled(a, b) <= a,
        a <= 0 ==> a <= scaled(a, b) <= -a,
        a >= 0 && b >= 0 ==> 0 <= scaled(a, b),
{
    let p = a * b;
    let m: int = if a >= 0 { a } else { -a };
    assert(-(m * SCALE) <= p <= m * SCALE) by (nonlinear_arith)
        requires
            p == a * b,
            -SCALE <= b <= SCALE,
            m >= 0,
            m == a || m == -a,
    ;
    if p >= 0 {
        assert(p / (SCALE as int) <= m) by (nonlinear_arith)
            requires
                0 <= p <= m * SCALE,
        ;
        assert(0 <= p / (SCALE as int)) by (nonlinear_arith)
            requires
                0 <= p,
        ;
    } else {
        let n = -p;
        assert(n / (SCALE as int) <= m) by (nonlinear_arith)
            requires
                0 <= n <= m * SCALE,
        ;
        assert(0 <= n / (SCALE as int)) by (nonlinear_arith)
            requires
                0 <= n,
        ;
    }
    if a >= 0 && b >= 0 {
        assert(p >= 0) by (nonlinear_arith)
            requires
                p == a * b,
                a >= 0,
                b >= 0,
        ;
    }
}

/// The share of a per-second rate that falls into one simulation step.
pub fn rate_per_tick(a: i64) -> (r: i64)
    ensures
        r == per_tick(a as int),
        a >= 0 ==> 0 <= r <= a,
        a <= 0 ==> a <= r <= 0,
{
    proof {
        lemma_div_toward_zero_bounds(a as int, TICKS_PER_SECOND as int);
    }
    a / TICKS_PER_SECOND
}

/// Brings an angle into `[0, TAU)`.
pub fn wrap(a: i64) -> (r: i64)
    ensures
        r == wrap_angle(a as int),
        0 <= r < TAU,
{
    wrap_wide(a as i128)
}

/// Brings an angle into `[0, TAU)`.
pub fn wrap_wide(a: i128) -> (r: i64)
    ensures
        r == wrap_angle(a as int),
        0 <= r < TAU,
{
    let m: i128 = a % (TAU as i128);
    if m < 0 {
        (m + TAU as i128) as i64
    } else {
        m as i64
    }
}

/// Sine of an angle between 0 and half a turn.
fn sin_first_half(x: i64) -> (r: i64)
    requires
        0 <= x <= PI,
    ensures
        r == sin_half_turn(x as int),
        0 <= r <= SCALE,
{
    proof {
        lemma_sin_half_turn_bounds(x as int);
        assert(0 <= x * (PI - x) <= PI * PI) by (nonlinear_arith)
            requires
                0 <= x <= PI,
        ;
        assert(PI * PI == 88811776) by (nonlinear_arith);
    }
    let y: i64 = x * (PI - x);
    let num: i64 = 16 * y * SCALE;
    let den: i64 = 5 * PI * PI - 4 * y;
    num / den
}

/// Sine of `a`.
pub fn sin(a: i64) -> (r: i64)
    ensures
        r == sin_of(a as int),
        -SCALE <= r <= SCALE,
{
    let t: i64 = wrap(a);
    if t <= PI {
        sin_first_half(t)
    } else {
        -sin_first_half(t - PI)
    }
}

/// Cosine of `a`.
pub fn cos(a: i64) -> (r: i64)
    ensures
        r == cos_of(a as int),
        -SCALE <= r <= SCALE,
{
    sin(wrap(a) + QUARTER_TURN)
}

/// Integer part of the square root of `n`.
pub fn isqrt(n: u128) -> (r: u128)
    ensures
        r == sqrt_floor(n as int),
        is_sqrt_floor(n as int, r as int),
        r < 0x1_0000_0000_0000_0000,
{
    let mut lo: u128 = 0;
    let mut hi: u128 = 0x1_0000_0000_0000_0000;
    proof {
        assert(0x1_0000_0000_0000_0000int * 0x1_0000_0000_0000_0000int > u128::MAX)
            by (nonlinear_arith);
    }
    while hi - lo > 1
        invariant
            lo < hi <= 0x1_0000_0000_0000_0000,
            lo * lo <= n,
            n < hi * hi,
        decreases hi - lo,
    {
        let mid: u128 = lo + (hi - lo) / 2;
        proof {
            assert(mid * mid <= u128::MAX) by (nonlinear_arith)
                requires
                    0 <= mid <= 0xffff_ffff_ffff_ffff,
            ;
        }
        if mid * mid <= n {
            lo = mid;
        } else {
            hi = mid;
        }
    }
    proof {
        assert(hi == lo + 1);
        lemma_sqrt_floor_unique(n as int, lo as int);
    }
    lo
}

/// Square root of `n`, rounded up.
pub fn isqrt_ceil(n: u128) -> (r: u128)
    ensures
        r == sqrt_ceil(n as int),
        r * r >= n,
        r <= 0x1_0000_0000_0000_0000,
        n > 0 ==> r > 0,
{
    let s: u128 = isqrt(n);
    proof {
        assert(s * s <= u128::MAX) by (nonlinear_arith)
            requires
                0 <= s <= 0xffff_ffff_ffff_ffff,
        ;
        assert((s + 1) * (s + 1) >= n);
    }
    if s * s == n {
        s
    } else {
        s + 1
    }
}

} // verus!
