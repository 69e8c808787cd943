use vstd::prelude::*;

verus! {

/// One whole unit, expressed in parts per million.
pub const PPM: u64 = 1_000_000;

/// Number of price units in one currency unit.
pub const PRICE_SCALE: u64 = 10_000;

/// Largest price (in price units) the analytics accept; keeps every
/// intermediate sum inside 128-bit arithmetic.
pub const MAX_PRICE: u64 = 1_099_511_627_776;

/// Longest series the dispersion statistics accept.
pub const MAX_SERIES_LEN: usize = 4096;

/// Integer division rounding toward zero, as Rust's `/` does on signed values.
pub open spec fn trunc_div(a: int, d: int) -> int {
    if a >= 0 {
        a / d
    } else {
        -((-a) / d)
    }
}

pub open spec fn abs(a: int) -> int {
    if a >= 0 {
        a
    } else {
        -a
    }
}

/// `r` is the integer square root of `v`, rounded down.
pub open spec fn is_floor_sqrt(r: int, v: int) -> bool {
    r >= 0 && r * r <= v && v < (r + 1) * (r + 1)
}

/// The integer square root of `v`, rounded down.
pub open spec fn floor_sqrt_of(v: int) -> int {
    choose|r: int| is_floor_sqrt(r, v)
}

/// The rounded-down square root is unique.
pub proof fn lemma_floor_sqrt_unique(r: int, v: int)
    requires
        is_floor_sqrt(r, v),
    ensures
        floor_sqrt_of(v) == r,
{
    let c = floor_sqrt_of(v);
    assert(is_floor_sqrt(c, v));
    if c < r {
        assert((c + 1) * (c + 1) <= r * r) by (nonlinear_arith)
            requires
                0 <= c < r,
        ;
    } else if r < c {
        assert((r + 1) * (r + 1) <= c * c) by (nonlinear_arith)
            requires
                0 <= r < c,
        ;
    }
}

/// Rounding toward zero never grows a value's magnitude.
pub proof fn lemma_trunc_div_shrinks(a: int, d: int)
    requires
        d >= 1,
    ensures
        abs(trunc_div(a, d)) <= abs(a),
{
    if a >= 0 {
        assert(a / d <= a) by (nonlinear_arith)
            requires
                a >= 0,
                d >= 1,
        ;
    } else {
        assert((-a) / d <= -a) by (nonlinear_arith)
            requires
                -a >= 0,
                d >= 1,
        ;
    }
}

/// Division rounding toward zero of a signed value by a positive divisor.
pub fn div_toward_zero(a: i128, d: i128) -> (r: i128)
    requires
        d > 0,
        a > i128::MIN,
    ensures
        r == trunc_div(a as int, d as int),
{
    if a >= 0 {
        a / d
    } else {
        let m: i128 = -a;
        let q: i128 = m / d;
        -q
    }
}

/// Largest `r` with `r * r <= v`.
pub fn floor_sqrt(v: u128) -> (r: u64)
    requires
        v <= 0x1000_0000_0000_0000_0000_0000_0000_0000u128,
    ensures
        is_floor_sqrt(r as int, v as int),
        r == floor_sqrt_of(v as int),
{
    let mut lo: u128 = 0;
    let mut hi: u128 = 0x4000_0000_0000_0001u128;
    assert(hi * hi > v) by (nonlinear_arith)
        requires
            hi == 0x4000_0000_0000_0001u128,
            v <= 0x1000_0000_0000_0000_0000_0000_0000_0000u128,
    ;
    while hi - lo > 1
        invariant
            lo < hi <= 0x4000_0000_0000_0001u128,
            lo * lo <= v,
            v < hi * hi,
        decreases hi - lo,
    {
        let mid: u128 = lo + (hi - lo) / 2;
        assert(mid * mid <= hi * hi) by (nonlinear_arith)
            requires
                mid < hi,
        ;
        assert(hi * hi <= 0x4000_0000_0000_0001u128 * 0x4000_0000_0000_0001u128) by (nonlinear_arith)
            requires
                hi <= 0x4000_0000_0000_0001u128,
        ;
        if mid * mid <= v {
            lo = mid;
        } else {
            hi = mid;
        }
    }
    assert(hi == lo + 1);
    assert(lo < 0x4000_0000_0000_0001u128);
    proof {
        lemma_floor_sqrt_unique(lo as int, v as int);
    }
    lo as u64
}

} // verus!
