use vstd::prelude::*;
use rand::Rng;
use crate::fixed::{abs, div_toward_zero, lemma_trunc_div_shrinks, trunc_div, MAX_PRICE, PPM};

verus! {

/// Strength of the pull back toward the base price, in parts per million.
pub const MEAN_REVERSION_SPEED_PPM: u64 = 10_000;

/// Largest base price, chosen so that the top of the band stays within
/// `MAX_PRICE`.
pub const MAX_BASE_PRICE: u64 = 785_365_448_411;

/// Largest relative move in one tick (8%), in parts per million.
pub const MAX_MOVE_PPM: i64 = 80_000;

/// Relative distance from the base inside which no mean reversion applies
/// (10%), in parts per million.
pub const REVERSION_DEAD_ZONE_PPM: i64 = 100_000;

/// Size of a macro news shock (3%) and of a micro shock (1%), in parts per
/// million.
pub const MACRO_SHOCK_PPM: i64 = 30_000;

pub const MICRO_SHOCK_PPM: i64 = 10_000;

/// Range of the base volume draw: `[MIN_BASE_VOLUME, MAX_BASE_VOLUME)`.
pub const MIN_BASE_VOLUME: u64 = 50_000;

pub const MAX_BASE_VOLUME: u64 = 2_000_000;

/// How strongly the size of a move inflates the volume.
pub const VOLUME_MOVE_FACTOR: u64 = 8;

/// The random inputs of one price step.
#[derive(Clone, Copy, Debug, PartialEq, Eq, Structural)]
pub struct PriceDraws {
    /// Uniform in `[-PPM, PPM)`: the random walk direction and size.
    pub walk_ppm: i64,
    /// News shock in parts per million; zero when no news arrived.
    pub news_ppm: i64,
    /// Base trade volume before the move adjustment.
    pub base_volume: u64,
}

pub open spec fn valid_draws(d: PriceDraws) -> bool {
    &&& -(PPM as int) <= d.walk_ppm < PPM
    &&& -MACRO_SHOCK_PPM <= d.news_ppm < MACRO_SHOCK_PPM
    &&& MIN_BASE_VOLUME <= d.base_volume < MAX_BASE_VOLUME
}

/// Lowest price of the band around `base`: 70% of it, rounded up.
pub open spec fn band_low(base: int) -> int {
    (7 * base + 9) / 10
}

/// Highest price of the band around `base`: 140% of it, rounded down.
pub open spec fn band_high(base: int) -> int {
    14 * base / 10
}

/// `price` lies within 70% to 140% of `base`.
pub open spec fn in_band(price: int, base: int) -> bool {
    7 * base <= 10 * price && 10 * price <= 14 * base
}

pub open spec fn clamp(v: int, lo: int, hi: int) -> int {
    if v < lo {
        lo
    } else if v > hi {
        hi
    } else {
        v
    }
}

/// Random walk component: the draw scaled by one and a half times the
/// volatility.
pub open spec fn random_component(volatility: int, walk: int) -> int {
    trunc_div(walk * volatility * 3, 2 * PPM)
}

/// Relative distance of `current` from `base`.
pub open spec fn deviation_from_base(current: int, base: int) -> int {
    trunc_div((current - base) * PPM, base)
}

/// Mean reversion component: half the speed times the deviation, against
/// it, once the deviation leaves the dead zone.
pub open spec fn reversion_component(current: int, base: int, speed: int) -> int {
    let dev = deviation_from_base(current, base);
    if abs(dev) > REVERSION_DEAD_ZONE_PPM {
        -trunc_div(dev * speed, 2 * PPM)
    } else {
        0
    }
}

/// The relative move of one step, limited to `MAX_MOVE_PPM` either way.
pub open spec fn total_move(current: int, base: int, volatility: int, speed: int, d: PriceDraws) -> int {
    clamp(
        random_component(volatility, d.walk_ppm as int) + reversion_component(current, base, speed)
            + d.news_ppm,
        -MAX_MOVE_PPM,
        MAX_MOVE_PPM as int,
    )
}

/// The price after one step: moved by the total move, then held in the band.
pub open spec fn stepped_price(current: int, base: int, volatility: int, speed: int, d: PriceDraws) -> int {
    clamp(
        current * (PPM + total_move(current, base, volatility, speed, d)) / (PPM as int),
        band_low(base),
        band_high(base),
    )
}

/// The volume of one step: the base volume grown by eight times the size of
/// the move.
pub open spec fn stepped_volume(mv: int, base_volume: int) -> int {
    base_volume * (PPM + VOLUME_MOVE_FACTOR * abs(mv)) / (PPM as int)
}

/// Price after each of `ds` has been applied in turn from `current`.
pub open spec fn price_path(current: int, base: int, volatility: int, speed: int, ds: Seq<PriceDraws>) -> int
    decreases ds.len(),
{
    if ds.len() == 0 {
        current
    } else {
        stepped_price(
            price_path(current, base, volatility, speed, ds.drop_last()),
            base,
            volatility,
            speed,
            ds.last(),
        )
    }
}

/// A single step never leaves the band, and its volume is positive.
pub proof fn lemma_step_in_band(current: int, base: int, volatility: int, speed: int, d: PriceDraws)
    requires
        base >= 1,
        valid_draws(d),
    ensures
        in_band(stepped_price(current, base, volatility, speed, d), base),
        stepped_volume(total_move(current, base, volatility, speed, d), d.base_volume as int) > 0,
{
    let mv = total_move(current, base, volatility, speed, d);
    assert(stepped_volume(mv, d.base_volume as int) >= d.base_volume) by (nonlinear_arith)
        requires
            d.base_volume >= 0,
            stepped_volume(mv, d.base_volume as int) == d.base_volume * (PPM + VOLUME_MOVE_FACTOR
                * abs(mv)) / (PPM as int),
            abs(mv) >= 0,
            PPM == 1_000_000,
            VOLUME_MOVE_FACTOR == 8,
    ;
}

/// Whatever draws arrive, in whatever number, the price stays within 70% to
/// 140% of its base.
pub proof fn lemma_price_path_in_band(
    current: int,
    base: int,
    volatility: int,
    speed: int,
    ds: Seq<PriceDraws>,
)
    requires
        base >= 1,
        in_band(current, base),
        forall|i: int| 0 <= i < ds.len() ==> valid_draws(#[trigger] ds[i]),
    ensures
        in_band(price_path(current, base, volatility, speed, ds), base),
    decreases ds.len(),
{
    if ds.len() > 0 {
        let prefix = ds.drop_last();
        assert forall|i: int| 0 <= i < prefix.len() implies valid_draws(#[trigger] prefix[i]) by {
            assert(prefix[i] == ds[i]);
        }
        lemma_price_path_in_band(current, base, volatility, speed, prefix);
        lemma_step_in_band(price_path(current, base, volatility, speed, prefix), base, volatility, speed, ds.last());
    }
}

/// Relies on rand's `thread_rng().gen_range(low..high)`: a value in
/// `[low, high)`; it panics on an empty range, which `requires` excludes.
#[verifier::external_body]
fn uniform_i64(low: i64, high: i64) -> (r: i64)
    requires
        low < high,
    ensures
        low <= r < high,
{
    rand::thread_rng().gen_range(low..high)
}

/// Relies on rand's `thread_rng().gen_range(low..high)`: a value in
/// `[low, high)`; it panics on an empty range, which `requires` excludes.
#[verifier::external_body]
fn uniform_u64(low: u64, high: u64) -> (r: u64)
    requires
        low < high,
    ensures
        low <= r < high,
{
    rand::thread_rng().gen_range(low..high)
}

/// Relies on rand's `thread_rng().gen_ratio(numerator, denominator)`: true
/// with that probability; it panics on a zero denominator or a numerator
/// above it, which `requires` excludes.
#[verifier::external_body]
fn chance(numerator: u32, denominator: u32) -> (r: bool)
    requires
        0 < denominator,
        numerator <= denominator,
{
    rand::thread_rng().gen_ratio(numerator, denominator)
}

/// Draws the random inputs of one step: a uniform walk; a macro shock with
/// probability 1/50, else a micro shock with probability 1/10, else none;
/// and a uniform base volume.
pub fn draw_price_moves() -> (r: PriceDraws)
    ensures
        valid_draws(r),
{
    let walk_ppm = uniform_i64(-(PPM as i64), PPM as i64);
    let news_ppm: i64 = if chance(1, 50) {
        uniform_i64(-MACRO_SHOCK_PPM, MACRO_SHOCK_PPM)
    } else if chance(1, 10) {
        uniform_i64(-MICRO_SHOCK_PPM, MICRO_SHOCK_PPM)
    } else {
        0
    };
    let base_volume = uniform_u64(MIN_BASE_VOLUME, MAX_BASE_VOLUME);
    PriceDraws { walk_ppm, news_ppm, base_volume }
}

} // verus!

verus! {

/// Generates prices by a random walk with dead-zone mean reversion toward a
/// fixed base, occasional news shocks, and a hard band around the base.
pub struct PriceGenerator {
    current_price: u64,
    base_price: u64,
    volatility: u64,
    mean_reversion_speed: u64,
}

impl PriceGenerator {
    pub closed spec fn current(&self) -> int {
        self.current_price as int
    }

    pub closed spec fn base(&self) -> int {
        self.base_price as int
    }

    /// Volatility in parts per million.
    pub closed spec fn vol(&self) -> int {
        self.volatility as int
    }

    /// Mean reversion speed in parts per million.
    pub closed spec fn speed(&self) -> int {
        self.mean_reversion_speed as int
    }

    pub closed spec fn wf(&self) -> bool {
        &&& 1 <= self.base_price <= MAX_BASE_PRICE
        &&& band_low(self.base_price as int) <= self.current_price <= band_high(self.base_price as int)
        &&& self.mean_reversion_speed == MEAN_REVERSION_SPEED_PPM
    }

    /// What a well-formed generator guarantees about its prices.
    pub proof fn lemma_wf_bounds(&self)
        requires
            self.wf(),
        ensures
            1 <= self.base() <= MAX_BASE_PRICE,
            in_band(self.current(), self.base()),
    {
    }

    /// A generator whose base and current price are `initial_price` (in
    /// price units) with the given volatility in parts per million.
    pub fn new(initial_price: u64, volatility: u64) -> (r: Self)
        requires
            1 <= initial_price <= MAX_BASE_PRICE,
        ensures
            r.wf(),
            r.current() == initial_price,
            r.base() == initial_price,
            r.vol() == volatility,
            r.speed() == MEAN_REVERSION_SPEED_PPM,
    {
        PriceGenerator {
            current_price: initial_price,
            base_price: initial_price,
            volatility,
            mean_reversion_speed: MEAN_REVERSION_SPEED_PPM,
        }
    }

    /// Advances one step with the given random inputs, returning the new
    /// price and the step's volume.
    pub fn apply_draws(&mut self, draws: PriceDraws) -> (r: (u64, u64))
        requires
            old(self).wf(),
            valid_draws(draws),
        ensures
            final(self).wf(),
            final(self).base() == old(self).base(),
            final(self).vol() == old(self).vol(),
            final(self).speed() == old(self).speed(),
            final(self).current() == stepped_price(
                old(self).current(),
                old(self).base(),
                old(self).vol(),
                old(self).speed(),
                draws,
            ),
            r.0 == final(self).current(),
            r.1 == stepped_volume(
                total_move(old(self).current(), old(self).base(), old(self).vol(), old(self).speed(), draws),
                draws.base_volume as int,
            ),
            in_band(r.0 as int, final(self).base()),
            r.1 > 0,
    {
        let ppm: i128 = PPM as i128;
        let current: i128 = self.current_price as i128;
        let base: i128 = self.base_price as i128;
        assert(band_high(base as int) <= MAX_PRICE);
        let w: i128 = draws.walk_ppm as i128;
        let v: i128 = self.volatility as i128;
        assert(abs(w * v) <= PPM * 0x1_0000_0000_0000_0000int) by (nonlinear_arith)
            requires
                -(PPM as int) <= w <= PPM,
                0 <= v < 0x1_0000_0000_0000_0000int,
        ;
        let walk_scaled: i128 = w * v * 3;
        assert(abs(walk_scaled as int) <= 3 * PPM * 0x1_0000_0000_0000_0000int);
        let random_change: i128 = div_toward_zero(walk_scaled, 2 * ppm);
        proof {
            lemma_trunc_div_shrinks(walk_scaled as int, 2 * PPM);
        }
        let offset: i128 = (current - base) * ppm;
        assert(abs(offset as int) <= MAX_PRICE * PPM) by (nonlinear_arith)
            requires
                offset == (current - base) * PPM,
                0 <= current <= MAX_PRICE,
                0 <= base <= MAX_PRICE,
        ;
        let deviation: i128 = div_toward_zero(offset, base);
        proof {
            lemma_trunc_div_shrinks(offset as int, base as int);
        }
        let magnitude: i128 = if deviation >= 0 {
            deviation
        } else {
            -deviation
        };
        let mean_reversion: i128 = if magnitude > REVERSION_DEAD_ZONE_PPM as i128 {
            let pull: i128 = deviation * (self.mean_reversion_speed as i128);
            assert(abs(pull as int) <= MAX_PRICE * PPM * PPM) by (nonlinear_arith)
                requires
                    pull == deviation * MEAN_REVERSION_SPEED_PPM,
                    abs(deviation as int) <= MAX_PRICE * PPM,
            ;
            proof {
                lemma_trunc_div_shrinks(pull as int, 2 * PPM);
            }
            -div_toward_zero(pull, 2 * ppm)
        } else {
            0
        };
        let raw: i128 = random_change + mean_reversion + draws.news_ppm as i128;
        let total: i128 = if raw < -(MAX_MOVE_PPM as i128) {
            -(MAX_MOVE_PPM as i128)
        } else if raw > MAX_MOVE_PPM as i128 {
            MAX_MOVE_PPM as i128
        } else {
            raw
        };
        let factor: i128 = ppm + total;
        assert(0 <= current * factor <= MAX_PRICE * 2 * PPM) by (nonlinear_arith)
            requires
                factor == PPM + total,
                0 <= current <= MAX_PRICE,
                -80_000 <= total <= 80_000,
        ;
        let scaled: i128 = current * factor;
        let moved: i128 = scaled / ppm;
        let low: i128 = (7 * base + 9) / 10;
        let high: i128 = 14 * base / 10;
        let price: i128 = if moved < low {
            low
        } else if moved > high {
            high
        } else {
            moved
        };
        self.current_price = price as u64;
        let size: i128 = if total >= 0 {
            total
        } else {
            -total
        };
        let growth: i128 = ppm + 8 * size;
        let bv: i128 = draws.base_volume as i128;
        assert(0 <= bv * growth <= 2 * PPM * 2 * PPM) by (nonlinear_arith)
            requires
                growth == PPM + 8 * size,
                0 <= bv <= 2 * PPM,
                0 <= size <= 80_000,
        ;
        let volume_scaled: i128 = bv * growth;
        let volume: i128 = volume_scaled / ppm;
        proof {
            lemma_step_in_band(
                old(self).current(),
                old(self).base(),
                old(self).vol(),
                old(self).speed(),
                draws,
            );
        }
        (price as u64, volume as u64)
    }

    /// Advances one step with fresh random inputs, returning the new price
    /// and the step's volume. Whatever is drawn, the price stays in the
    /// band around the base and the volume is positive.
    pub fn next_price(&mut self) -> (r: (u64, u64))
        requires
            old(self).wf(),
        ensures
            final(self).wf(),
            final(self).base() == old(self).base(),
            final(self).vol() == old(self).vol(),
            final(self).speed() == old(self).speed(),
            r.0 == final(self).current(),
            in_band(r.0 as int, final(self).base()),
            r.1 > 0,
            exists|d: PriceDraws|
                valid_draws(d) && #[trigger] stepped_price(
                    old(self).current(),
                    old(self).base(),
                    old(self).vol(),
                    old(self).speed(),
                    d,
                ) == r.0 && r.1 == stepped_volume(
                    total_move(old(self).current(), old(self).base(), old(self).vol(), old(self).speed(), d),
                    d.base_volume as int,
                ),
    {
        let draws = draw_price_moves();
        self.apply_draws(draws)
    }

    /// Replaces the volatility (parts per million).
    pub fn set_volatility(&mut self, volatility: u64)
        requires
            old(self).wf(),
        ensures
            final(self).wf(),
            final(self).vol() == volatility,
            final(self).current() == old(self).current(),
            final(self).base() == old(self).base(),
            final(self).speed() == old(self).speed(),
    {
        self.volatility = volatility;
    }

    pub fn current_price(&self) -> (r: u64)
        ensures
            r == self.current(),
    {
        self.current_price
    }

    pub fn base_price(&self) -> (r: u64)
        ensures
            r == self.base(),
    {
        self.base_price
    }
}

} // verus!
